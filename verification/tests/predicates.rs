use sassi::json::bridge::JsonTree;
use sassi::json::binary64::{compare_i64_f64, compare_u64_f64, NumberOrder};
use sassi::jsahibon::compare_jsahibon_numbers;
use sassi::predicate::field_value::FieldEq;
use sassi::predicate::json_path::valid_plain_segment;
use sassi::{
    BasicPredicate, Cacheable, Field, FieldValue, JFiniteF64, JObject, JPath, JSahibON, JSahibONError,
    JTypeKind, JSahibONPredicateBody, LookupOp, Operand, OperandValue,
};

struct User {
    id: i64,
    age: u32,
    is_active: bool,
    name: String,
    nick: Option<String>,
    doc: JSahibON,
    extra: Option<JSahibON>,
}

struct UserFields {
    id: Field<User, i64>,
    age: Field<User, u32>,
    is_active: Field<User, bool>,
    name: Field<User, String>,
    nick: Field<User, Option<String>>,
    doc: Field<User, JSahibON>,
    extra: Field<User, Option<JSahibON>>,
}

impl Cacheable for User {
    type Fields = UserFields;

    fn id(&self) -> i64 {
        self.id
    }

    fn fields() -> UserFields {
        UserFields {
            id: Field::new("id", |user: &User| &user.id),
            age: Field::new("age", |user: &User| &user.age),
            is_active: Field::new("is_active", |user: &User| &user.is_active),
            name: Field::new("name", |user: &User| &user.name),
            nick: Field::new("nick", |user: &User| &user.nick),
            doc: Field::new("doc", |user: &User| &user.doc),
            extra: Field::new("extra", |user: &User| &user.extra),
        }
    }

    fn cache_type_name() -> &'static str {
        "User"
    }
}

fn f64_of(x: f64) -> JSahibON {
    JSahibON::try_f64(x.to_bits()).unwrap()
}

fn object(entries: Vec<(&str, JSahibON)>) -> JSahibON {
    JSahibON::Object(JObject::from_entries(
        entries.into_iter().map(|(k, v)| (k.to_owned(), v)).collect(),
    ))
}

fn ada() -> User {
    User {
        id: 1,
        age: 32,
        is_active: true,
        name: "Ada Lovelace".to_owned(),
        nick: None,
        doc: object(vec![
            ("score", JSahibON::I64(7)),
            ("ratio", f64_of(0.5)),
            ("tags", JSahibON::Array(vec![JSahibON::String("a".to_owned()), JSahibON::I64(3)])),
            ("gone", JSahibON::Null),
            ("inner", object(vec![("deep", JSahibON::Bool(true)), ("odd.key", JSahibON::U64(9))])),
        ]),
        extra: None,
    }
}

fn passes(p: BasicPredicate<User>) -> bool {
    p.evaluate(&ada())
}

#[test]
fn comparisons_on_a_field() {
    let f = User::fields();
    assert!(passes(f.id.eq(1)) && !passes(f.id.eq(2)));
    assert!(passes(f.age.eq(32)) && !passes(f.age.eq(31)));
    assert!(passes(f.age.neq(31)) && !passes(f.age.neq(32)));
    assert!(passes(f.age.gt(31)) && !passes(f.age.gt(32)));
    assert!(passes(f.age.gte(32)) && !passes(f.age.gte(33)));
    assert!(passes(f.age.lt(33)) && !passes(f.age.lt(32)));
    assert!(passes(f.age.lte(32)) && !passes(f.age.lte(31)));
    assert!(passes(f.age.between(32, 40)) && passes(f.age.between(20, 32)));
    assert!(!passes(f.age.between(33, 40)) && !passes(f.age.between(40, 20)));
    assert!(passes(f.age.in_(vec![1, 32])) && !passes(f.age.in_(vec![])));
    assert!(passes(f.age.not_in(vec![1])) && !passes(f.age.not_in(vec![32])));
    assert!(passes(f.is_active.eq(true)));
    match f.age.gte(18) {
        BasicPredicate::Field(p) => {
            assert_eq!(p.field_name, "age");
            assert_eq!(p.op, LookupOp::Gte);
        }
        _ => panic!("expected a field predicate"),
    }
}

#[test]
fn fields_that_may_be_absent() {
    let f = User::fields();
    assert!(passes(f.nick.is_null()) && !passes(f.nick.is_not_null()));
    assert!(!passes(f.nick.some().eq("x".to_owned())));
    assert!(!passes(f.nick.some().neq("x".to_owned())));
    assert!(!passes(f.nick.some().not_in(vec![])));
    let mut user = ada();
    user.nick = Some("x".to_owned());
    assert!(f.nick.some().eq("x".to_owned()).evaluate(&user));
    assert!(f.nick.some().gte("a".to_owned()).evaluate(&user));
    assert!(f.nick.some().between("w".to_owned(), "y".to_owned()).evaluate(&user));
    assert!(!f.nick.is_null().evaluate(&user));
}

#[test]
fn texts() {
    let f = User::fields();
    assert!(passes(f.name.contains("Love")) && !passes(f.name.contains("love")));
    assert!(passes(f.name.icontains("LOVE")) && passes(f.name.contains("")));
    assert!(passes(f.name.starts_with("Ada")) && !passes(f.name.starts_with("ada")));
    assert!(passes(f.name.istarts_with("aDA")));
    assert!(passes(f.name.ends_with("lace")) && passes(f.name.iends_with("LACE")));
    assert!(passes(f.name.iexact("ADA LOVELACE")) && !passes(f.name.iexact("ada")));
    assert!(!passes(f.name.istarts_with("Ada Lovelace and more")));
}

#[test]
fn combinations() {
    let f = User::fields();
    assert!(passes(f.age.gte(18) & f.is_active.eq(true)));
    assert!(!passes(f.age.gte(40) & f.is_active.eq(true)));
    assert!(passes(f.age.gte(40) | f.is_active.eq(true)));
    assert!(passes(f.age.gte(40) ^ f.is_active.eq(true)));
    assert!(!passes(f.age.gte(18) ^ f.is_active.eq(true)));
    assert!(passes(!f.age.gte(40)) && passes(!!f.age.gte(18)));
    match f.age.gte(1) & f.age.gte(2) & f.age.gte(3) {
        BasicPredicate::And(children) => assert_eq!(children.len(), 3),
        _ => panic!("expected a flat conjunction"),
    }
    match f.age.gte(1) | (f.age.gte(2) | f.age.gte(3)) {
        BasicPredicate::Or(children) => assert_eq!(children.len(), 3),
        _ => panic!("expected a flat disjunction"),
    }
    assert!(passes(BasicPredicate::True) && !passes(BasicPredicate::False));
    assert!(passes(BasicPredicate::And(vec![])) && !passes(BasicPredicate::Or(vec![])));
}

#[test]
fn json_fields() {
    let f = User::fields();
    let doc = f.doc.jsahibon();
    assert!(passes(doc.is_present()) && passes(doc.is_object()) && !passes(doc.is_array()));
    assert!(passes(doc.path("score").is_number()) && passes(doc.path("nope").missing()));
    assert!(!passes(doc.path("nope").is_present()));
    assert!(passes(doc.path("gone").is_json_null()) && !passes(doc.path("gone").is_not_json_null()));
    assert!(!passes(doc.path("nope").is_json_null()) && !passes(doc.path("nope").is_not_json_null()));
    assert!(passes(doc.path("inner.deep").is_bool()));
    assert!(passes(doc.path("inner").key("odd.key".to_owned()).value::<u64>().eq(9)));
    assert!(passes(doc.path_segments(vec!["inner".to_owned(), "deep".to_owned()]).is_type(JTypeKind::Bool)));
    assert!(passes(doc.has_key("tags".to_owned())) && !passes(doc.has_key("x".to_owned())));
    assert!(passes(doc.has_any_key(vec!["x".to_owned(), "tags".to_owned()])));
    assert!(!passes(doc.has_all_keys(vec!["x".to_owned(), "tags".to_owned()])));
    assert!(passes(doc.has_all_keys(vec![])) && !passes(doc.has_any_key(vec![])));
    assert!(passes(doc.path("score").value::<i64>().eq(7)));
    assert!(passes(doc.path("score").value::<i64>().neq(8)));
    assert!(!passes(doc.path("nope").value::<i64>().neq(8)));
    assert!(!passes(doc.path("tags").value::<i64>().not_in(vec![8])));
    assert!(passes(doc.path("score").value::<i64>().between(7, 9)));
    assert!(passes(doc.path("score").value::<i64>().gt(6) & doc.path("score").value::<i64>().lt(8)));
    assert!(passes(doc.path("score").value::<i64>().gte(7) & doc.path("score").value::<i64>().lte(7)));
    assert!(passes(doc.path("score").value::<i64>().in_(vec![1, 7])));
    assert!(passes(doc.path("ratio").value::<JFiniteF64>().lt(JFiniteF64::try_new(0.75f64.to_bits()).unwrap())));
    assert!(passes(doc.path("score").eq_json(f64_of(7.0))));
    assert!(passes(doc.path("score").neq_json(f64_of(7.5))));
    assert!(passes(doc.path("tags").array_contains(f64_of(3.0))));
    assert!(!passes(doc.path("tags").array_contains(JSahibON::Null)));
    assert!(passes(doc.path("tags").array_len_eq(2)) && !passes(doc.path("tags").array_len_gt(2)));
    assert!(passes(doc.path("tags").array_len_gte(2)) && passes(doc.path("tags").array_len_lt(3)));
    assert!(passes(doc.path("tags").array_len_lte(2)) && !passes(doc.path("score").array_len_lte(9)));
    assert!(passes(doc.path("tags").is_array()) && !passes(doc.path("tags").is_string()));
    assert!(passes(doc.root().is_object()));
}

#[test]
fn json_fields_that_may_be_absent() {
    let f = User::fields();
    let extra = f.extra.jsahibon_option();
    assert!(!passes(extra.is_present()) && passes(extra.missing()));
    assert!(!passes(extra.is_json_null()));
    let mut user = ada();
    user.extra = Some(JSahibON::Null);
    assert!(extra.is_json_null().evaluate(&user) && extra.is_present().evaluate(&user));
    user.extra = Some(object(vec![("k", JSahibON::String("v".to_owned()))]));
    assert!(extra.path("k").value::<String>().eq("v".to_owned()).evaluate(&user));
    assert!(extra.key("k".to_owned()).is_string().evaluate(&user));
}

#[test]
fn paths() {
    assert_eq!(JPath::parse_dotted("a.b_2.C").segments(), &vec!["a", "b_2", "C"]);
    assert!(JPath::root().segments().is_empty());
    assert!(JPath::try_parse_dotted("").is_none());
    assert!(JPath::try_parse_dotted("a..b").is_none());
    assert!(JPath::try_parse_dotted("1a").is_none());
    assert!(JPath::try_parse_dotted("a-b").is_none());
    assert!(valid_plain_segment("_x9") && !valid_plain_segment(&"a".repeat(64)));
    assert!(valid_plain_segment(&"a".repeat(63)));
}

#[test]
fn numbers_compare_by_their_exact_values() {
    let big = 9_007_199_254_740_993i64;
    assert_eq!(compare_i64_f64(big, (big as f64).to_bits()), NumberOrder::Greater);
    assert_eq!(compare_i64_f64(i64::MAX, 9.3e18f64.to_bits()), NumberOrder::Less);
    assert_eq!(compare_i64_f64(-1, (-1.5f64).to_bits()), NumberOrder::Greater);
    assert_eq!(compare_i64_f64(1, 1.5f64.to_bits()), NumberOrder::Less);
    assert_eq!(compare_u64_f64(0, (-0.0f64).to_bits()), NumberOrder::Equal);
    assert_eq!(compare_u64_f64(u64::MAX, 18446744073709551616.0f64.to_bits()), NumberOrder::Less);
    assert!(JSahibON::I64(2).same(&f64_of(2.0)));
    assert!(JSahibON::I64(2) == JSahibON::U64(2));
    assert!(JSahibON::I64(-1) != JSahibON::U64(u64::MAX));
    assert!(f64_of(0.0) == f64_of(-0.0));
    assert_eq!(
        compare_jsahibon_numbers(&JSahibON::U64(3), &f64_of(2.5)),
        Some(NumberOrder::Greater)
    );
    assert_eq!(compare_jsahibon_numbers(&JSahibON::Null, &f64_of(2.5)), None);
    assert_eq!(
        compare_jsahibon_numbers(&f64_of(f64::MIN_POSITIVE / 4.0), &f64_of(0.0)),
        Some(NumberOrder::Greater)
    );
}

#[test]
fn only_finite_floats_are_taken() {
    assert!(matches!(
        JFiniteF64::try_new(f64::NAN.to_bits()),
        Err(JSahibONError::NonFiniteF64)
    ));
    assert!(JFiniteF64::try_new(f64::NEG_INFINITY.to_bits()).is_err());
    assert_eq!(JFiniteF64::try_new(1.5f64.to_bits()).unwrap().get(), 1.5f64.to_bits());
    assert_eq!(
        JSahibONError::NonFiniteF64.to_text(),
        "JSahibON only accepts finite f64 values"
    );
}

#[test]
fn objects_keep_the_place_of_a_key() {
    let mut object = JObject::new();
    assert!(object.insert("a".to_owned(), JSahibON::I64(1)).is_none());
    assert!(object.insert("b".to_owned(), JSahibON::I64(2)).is_none());
    let old = object.insert("a".to_owned(), JSahibON::I64(3)).unwrap();
    assert!(old.same(&JSahibON::I64(1)));
    assert_eq!(object.len(), 2);
    assert_eq!(object.iter().map(|(k, _)| k.as_str()).collect::<Vec<_>>(), vec!["a", "b"]);
    assert!(object.get("a").unwrap().same(&JSahibON::I64(3)));
    assert!(object.get("c").is_none());
    let other = JObject::from_entries(vec![
        ("b".to_owned(), JSahibON::I64(2)),
        ("a".to_owned(), JSahibON::I64(3)),
    ]);
    assert!(JSahibON::Object(object).same(&JSahibON::Object(other)));
}

#[test]
fn documents_become_values() {
    let tree = JsonTree::Object(vec![
        ("n".to_owned(), JsonTree::Number {
            as_i64: Some(-4),
            as_u64: None,
            as_f64: Some((-4.0f64).to_bits()),
            text: "-4".to_owned(),
        }),
        ("f".to_owned(), JsonTree::Number {
            as_i64: None,
            as_u64: None,
            as_f64: Some(2.5f64.to_bits()),
            text: "2.5".to_owned(),
        }),
        ("l".to_owned(), JsonTree::Array(vec![JsonTree::Null, JsonTree::Bool(true)])),
        ("s".to_owned(), JsonTree::String("x".to_owned())),
    ]);
    let value = JSahibON::from_tree(&tree).unwrap();
    assert!(value.same(&object(vec![
        ("n", JSahibON::I64(-4)),
        ("f", f64_of(2.5)),
        ("l", JSahibON::Array(vec![JSahibON::Null, JSahibON::Bool(true)])),
        ("s", JSahibON::String("x".to_owned())),
    ])));
    let odd = JsonTree::Number { as_i64: None, as_u64: None, as_f64: None, text: "1e999".to_owned() };
    match JSahibON::from_tree(&JsonTree::Array(vec![odd])) {
        Err(err) => assert_eq!(
            err.to_text(),
            "serde_json number is outside JSahibON's supported numeric range: 1e999"
        ),
        Ok(_) => panic!("the number has no value"),
    }
}

#[test]
fn negation_passes_through_combinations() {
    let f = User::fields();
    for (a, b) in [(18u32, true), (18, false), (40, true), (40, false)] {
        let left = !(f.age.gte(a) & f.is_active.eq(b));
        let right = !f.age.gte(a) | !f.is_active.eq(b);
        assert_eq!(passes(left), passes(right));
        let left = !(f.age.gte(a) | f.is_active.eq(b));
        let right = !f.age.gte(a) & !f.is_active.eq(b);
        assert_eq!(passes(left), passes(right));
    }
    match !!f.age.gte(18) {
        BasicPredicate::Field(_) => {}
        _ => panic!("two negations give the predicate back"),
    }
}

#[test]
fn equality_of_documents_is_an_equivalence() {
    let values = [
        JSahibON::I64(2),
        JSahibON::U64(2),
        f64_of(2.0),
        JSahibON::Null,
        JSahibON::Array(vec![JSahibON::I64(1)]),
        JSahibON::Array(vec![f64_of(1.0)]),
        object(vec![("a", JSahibON::I64(1)), ("b", JSahibON::Null)]),
        object(vec![("b", JSahibON::Null), ("a", JSahibON::U64(1))]),
    ];
    for a in &values {
        assert!(a.same(a));
        for b in &values {
            assert_eq!(a.same(b), b.same(a));
            for c in &values {
                assert!(!(a.same(b) && b.same(c)) || a.same(c));
            }
        }
    }
}

fn field_of(p: &BasicPredicate<User>) -> &sassi::FieldPredicate<User> {
    match p {
        BasicPredicate::Field(p) => p,
        _ => panic!("expected a field predicate"),
    }
}

#[test]
fn operands_can_be_read_back() {
    let f = User::fields();
    let p = f.age.gte(18);
    assert!(matches!(field_of(&p).operand(), Operand::One(OperandValue::Unsigned(18))));
    assert!(field_of(&p).json_body().is_none());
    let p = f.id.eq(-3);
    assert!(matches!(field_of(&p).operand(), Operand::One(OperandValue::Signed(-3))));
    let p = f.is_active.neq(true);
    assert!(matches!(field_of(&p).operand(), Operand::One(OperandValue::Flag(true))));
    let p = f.age.between(20, 30);
    assert!(matches!(
        field_of(&p).operand(),
        Operand::Pair(OperandValue::Unsigned(20), OperandValue::Unsigned(30))
    ));
    let p = f.age.not_in(vec![4, 5]);
    match field_of(&p).operand() {
        Operand::List(values) => {
            assert_eq!(values.len(), 2);
            assert!(matches!(values[1], OperandValue::Unsigned(5)));
        }
        other => panic!("unexpected {other:?}"),
    }
    let p = f.name.icontains("LOVE");
    assert!(matches!(field_of(&p).operand(), Operand::Text("LOVE")));
    let p = f.nick.eq(None);
    assert!(matches!(field_of(&p).operand(), Operand::One(OperandValue::Absent)));
    let p = f.nick.some().eq("x".to_owned());
    assert!(matches!(field_of(&p).operand(), Operand::One(OperandValue::Text("x"))));
    let p = f.nick.is_null();
    assert!(matches!(field_of(&p).operand(), Operand::Nothing));
}

#[test]
fn json_conditions_can_be_read_back() {
    let f = User::fields();
    let p = f.doc.jsahibon().path("inner").has_key("deep".to_owned());
    match field_of(&p).json_body() {
        Some(JSahibONPredicateBody::HasKey { path, key }) => {
            assert_eq!(path.segments(), &["inner".to_owned()]);
            assert_eq!(key, "deep");
        }
        other => panic!("unexpected {other:?}"),
    }
    let p = f.doc.jsahibon().path("score").value::<i64>().gt(5);
    assert!(matches!(
        field_of(&p).json_body(),
        Some(JSahibONPredicateBody::ScalarCompare {
            op: sassi::JCompareOp::Gt,
            operand: sassi::JScalarValue::I64(5),
            ..
        })
    ));
    assert_eq!(field_of(&p).op, LookupOp::Json);
}

#[test]
fn copied_predicates_pass_the_same() {
    let f = User::fields();
    let p = (f.age.gte(18) & f.is_active.eq(true)) | !f.name.contains("Ada") ^ f.id.eq(1);
    let q = p.clone();
    for age in [10, 18, 40] {
        let mut user = ada();
        user.age = age;
        assert_eq!(p.evaluate(&user), q.evaluate(&user));
    }
    let q = (f.age.gte(1) & f.age.gte(2)).clone();
    assert!(matches!(q, BasicPredicate::And(children) if children.len() == 2));
}

#[test]
fn prefixes_fold_ascii_only() {
    let f = User::fields();
    let mut user = ada();
    user.name = "\u{c9}cole Normale".to_owned();
    assert!(f.name.istarts_with("\u{c9}COLE n").evaluate(&user));
    assert!(!f.name.istarts_with("\u{e9}cole").evaluate(&user));
    assert!(f.name.istarts_with("").evaluate(&user));
    assert!(!f.name.istarts_with("\u{c9}cole Normale Sup").evaluate(&user));
}

#[derive(PartialEq)]
enum Tier {
    Free,
    Paid,
}

impl FieldValue for Tier {
    fn show(&self) -> OperandValue<'_> {
        OperandValue::Opaque
    }
}

impl FieldEq for Tier {
    fn same_value(&self, other: &Self) -> bool {
        self == other
    }
}

#[test]
fn own_types_are_compared() {
    let tier: Field<(i64, Tier), Tier> = Field::new("tier", |v: &(i64, Tier)| &v.1);
    let p = tier.eq(Tier::Paid);
    assert!(p.evaluate(&(1, Tier::Paid)) && !p.evaluate(&(1, Tier::Free)));
    match p {
        BasicPredicate::Field(p) => {
            assert!(matches!(p.operand(), Operand::One(OperandValue::Opaque)))
        }
        _ => panic!("expected a field predicate"),
    }
}

struct Letter {
    id: i64,
    letter: char,
}

#[test]
fn characters_are_compared() {
    let letter: Field<Letter, char> = Field::new("letter", |v: &Letter| &v.letter);
    let id: Field<Letter, i64> = Field::new("id", |v: &Letter| &v.id);
    let m = Letter { id: 1, letter: 'm' };
    assert!(letter.eq('m').evaluate(&m) && !letter.eq('M').evaluate(&m));
    assert!(letter.gt('l').evaluate(&m) && letter.lt('\u{e9}').evaluate(&m));
    assert!(letter.in_(vec!['a', 'm']).evaluate(&m) && id.eq(1).evaluate(&m));
    match letter.gte('a') {
        BasicPredicate::Field(p) => {
            assert!(matches!(p.operand(), Operand::One(OperandValue::Character(97))))
        }
        _ => panic!("expected a field predicate"),
    }
}
