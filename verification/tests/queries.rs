use sassi::cacheable::Extract;
use sassi::json::binary64::NumberOrder;
use sassi::{Cacheable, Field, MemQ, Punnu};
use std::sync::Arc;

#[derive(Debug, Clone, PartialEq)]
struct User {
    id: i64,
    age: u32,
    is_active: bool,
}

struct UserFields {
    age: Field<User, u32>,
    is_active: Field<User, bool>,
}

impl Cacheable for User {
    type Fields = UserFields;

    fn id(&self) -> i64 {
        self.id
    }

    fn fields() -> UserFields {
        UserFields {
            age: Field::new("age", |user: &User| &user.age),
            is_active: Field::new("is_active", |user: &User| &user.is_active),
        }
    }

    fn cache_type_name() -> &'static str {
        "User"
    }
}

fn user(id: i64, age: u32) -> User {
    User { id, age, is_active: true }
}

fn list(entries: &[(i64, u32)]) -> Vec<Arc<User>> {
    entries.iter().map(|(id, age)| Arc::new(user(*id, *age))).collect()
}

fn ids(values: &[Arc<User>]) -> Vec<i64> {
    values.iter().map(|v| v.id).collect()
}

fn users() -> Punnu<User> {
    match Punnu::builder().build(false) {
        Ok(pool) => pool,
        Err(err) => panic!("{}", err.to_text()),
    }
}

#[test]
fn quick_tour() {
    let mut users = users();
    let done = users.insert(User { id: 1, age: 32, is_active: true }, 0);
    assert!(done.result.is_ok());
    let adults = users
        .scope(vec![MemQ::filter_basic(
            User::fields().age.gte(18) & User::fields().is_active.eq(true),
        )])
        .take(10)
        .collect(0);
    assert_eq!(adults.len(), 1);
}

#[test]
fn filters_keep_the_order() {
    let values = list(&[(3, 30), (1, 10), (2, 20)]);
    let out = MemQ::filter(|u: &User| u.age >= 20).apply(values.clone());
    assert_eq!(ids(&out), vec![3, 2]);
    let out = MemQ::from(User::fields().age.lt(30)).apply(values);
    assert_eq!(ids(&out), vec![1, 2]);
}

#[test]
fn maps_replace_values() {
    let values = list(&[(1, 10), (2, 20)]);
    let out = MemQ::map(|u: &User| user(u.id, u.age + 1)).apply(values.clone());
    assert_eq!(out.iter().map(|u| u.age).collect::<Vec<_>>(), vec![11, 21]);
    let out = MemQ::map_arc(|u: Arc<User>| u).apply(values.clone());
    assert!(Arc::ptr_eq(&out[1], &values[1]));
    let out = MemQ::flat_map(|u: &User| if u.id == 1 { vec![] } else { vec![u.clone(), user(9, 0)] })
        .apply(values.clone());
    assert_eq!(ids(&out), vec![2, 9]);
    let out = MemQ::flat_map_arc(|u: Arc<User>| vec![u.clone(), u]).apply(values);
    assert_eq!(ids(&out), vec![1, 1, 2, 2]);
}

#[test]
fn slices_and_chains() {
    let values = list(&[(1, 10), (2, 20), (3, 30)]);
    assert_eq!(ids(&MemQ::take(2).apply(values.clone())), vec![1, 2]);
    assert_eq!(ids(&MemQ::take(9).apply(values.clone())), vec![1, 2, 3]);
    assert_eq!(ids(&MemQ::skip(2).apply(values.clone())), vec![3]);
    assert!(MemQ::skip(9).apply(values.clone()).is_empty());
    assert_eq!(ids(&MemQ::chain(list(&[(7, 0)])).apply(values.clone())), vec![1, 2, 3, 7]);
    assert_eq!(ids(&MemQ::chain_values(vec![user(8, 0)]).apply(values)), vec![1, 2, 3, 8]);
}

#[test]
fn sorting_is_stable() {
    let values = list(&[(1, 20), (2, 10), (3, 20), (4, 10), (5, 5)]);
    let out = MemQ::sort_by_key(|u: &User| u.age).apply(values.clone());
    assert_eq!(ids(&out), vec![5, 2, 4, 1, 3]);
    let out = MemQ::sort(|a: &Arc<User>, b: &Arc<User>| {
        if a.age > b.age {
            NumberOrder::Less
        } else if a.age == b.age {
            NumberOrder::Equal
        } else {
            NumberOrder::Greater
        }
    })
    .apply(values);
    assert_eq!(ids(&out), vec![1, 3, 2, 4, 5]);
    let many: Vec<(i64, u32)> = (0..100).map(|i| (i, (i as u32 * 37) % 11)).collect();
    let out = MemQ::sort_by_key(|u: &User| u.age).apply(list(&many));
    let mut expected = many.clone();
    expected.sort_by_key(|(_, age)| *age);
    assert_eq!(ids(&out), expected.iter().map(|(id, _)| *id).collect::<Vec<_>>());
    let named = MemQ::sort_by_key(|u: &User| format!("{}", u.age)).apply(list(&[(1, 9), (2, 10)]));
    assert_eq!(ids(&named), vec![2, 1]);
}

#[test]
fn the_first_of_each_key_is_kept() {
    let values = list(&[(1, 20), (2, 10), (1, 30), (3, 10)]);
    assert_eq!(ids(&MemQ::unique().apply(values.clone())), vec![1, 2, 3]);
    let out = MemQ::unique_by(|u: &User| u.age % 20).apply(values.clone());
    assert_eq!(ids(&out), vec![1, 2]);
    let out = MemQ::unique_by(|u: &User| (format!("{}", u.age), u.is_active)).apply(values);
    assert_eq!(ids(&out), vec![1, 2, 1]);
}

#[test]
fn groups_come_in_the_order_of_their_first_values() {
    let values = list(&[(1, 20), (2, 10), (3, 20), (4, 30), (5, 10)]);
    let out = MemQ::group_by(|u: &User| u.age).apply(values.clone());
    assert_eq!(ids(&out), vec![1, 3, 2, 5, 4]);
    let out = MemQ::group_by(|u: &User| if u.age == 30 { None } else { Some(u.age) }).apply(values);
    assert_eq!(ids(&out), vec![1, 3, 2, 5, 4]);
}

#[test]
fn a_partition_moves_matches_to_the_front() {
    let values = list(&[(1, 20), (2, 10), (3, 20)]);
    let out = MemQ::partition(|u: &User| u.age == 10).apply(values);
    assert_eq!(ids(&out), vec![2, 1, 3]);
}

#[test]
fn folds_leave_one_value_or_none() {
    let oldest = MemQ::fold(|values: Vec<Arc<User>>| values.into_iter().max_by_key(|u| u.age));
    assert_eq!(ids(&oldest.apply(list(&[(1, 20), (2, 30)]))), vec![2]);
    assert!(oldest.apply(vec![]).is_empty());
}

#[test]
fn operations_run_in_order() {
    let ops = vec![MemQ::filter(|u: &User| u.age > 5), MemQ::skip(1), MemQ::take(1)];
    assert_eq!(ids(&MemQ::apply_all(&ops, list(&[(1, 1), (2, 10), (3, 20), (4, 30)]))), vec![3]);
}

#[test]
fn scopes_see_live_values_only() {
    let mut users = users();
    for id in 1..=4i64 {
        let _ = users.insert(user(id, (id as u32) * 10), 0);
    }
    let _ = users.insert_with_ttl(user(5, 50), 10, 0);
    assert_eq!(users.scope(vec![]).count(5), 5);
    assert_eq!(users.scope(vec![]).count(10), 4);

    let names = users
        .scope(vec![])
        .filter_basic(|f| f.age.gte(20))
        .sort_by_key(|u: &User| u.id)
        .filter_closure(|u: &User| u.id != 3)
        .map(|u: &User| user(u.id, 0))
        .collect(10);
    assert_eq!(ids(&names), vec![2, 4]);
    let first = users.scope(vec![]).sort_by_key(|u: &User| u.id).skip(1).first(0);
    assert_eq!(first.unwrap().id, 2);
    assert!(users.scope(vec![]).any(0));
    assert!(!users.scope(vec![]).filter(|f| MemQ::filter_basic(f.age.gt(99))).any(0));
    assert!(users.scope(vec![]).take(0).first(0).is_none());
    let spare = users
        .scope(vec![])
        .chain_values(vec![user(1, 0)])
        .unique()
        .group_by(|u: &User| u.is_active)
        .partition(|u: &User| u.id == 5)
        .iter(0);
    assert_eq!(spare.map(|u| u.id).collect::<Vec<_>>()[0], 5);
    let total = users
        .scope(vec![])
        .unique_by(|u: &User| u.age)
        .flat_map(|u: &User| vec![u.clone()])
        .flat_map_arc(|u: Arc<User>| vec![u])
        .map_arc(|u: Arc<User>| u)
        .chain(vec![])
        .with_op(MemQ::take(3))
        .fold(|values: Vec<Arc<User>>| values.first().cloned())
        .count(0);
    assert_eq!(total, 1);
}

struct AgeOf;

impl Extract<User, u32> for AgeOf {
    fn extract<'a>(&self, value: &'a User) -> &'a u32 {
        &value.age
    }
}

#[test]
fn a_field_can_be_reached_by_a_type() {
    let age = Field::with_extract("age", AgeOf);
    assert_eq!(age.name(), "age");
    assert_eq!(*age.get(&user(1, 7)), 7);
    let out = MemQ::from(age.gt(10)).apply(list(&[(1, 7), (2, 11)]));
    assert_eq!(ids(&out), vec![2]);
}

#[test]
fn copied_operations_do_the_same() {
    let values = list(&[(1, 30), (2, 10), (3, 20)]);
    let ops = vec![
        MemQ::filter_basic(User::fields().age.gte(20)),
        MemQ::filter(|user: &User| user.age > 15),
        MemQ::map(|u: &User| user(u.id, u.age + 1)),
        MemQ::take(2),
        MemQ::skip(1),
        MemQ::chain_values(vec![user(9, 9)]),
        MemQ::sort_by_key(|user: &User| user.age),
        MemQ::unique_by(|user: &User| user.is_active),
        MemQ::group_by(|user: &User| user.age % 20),
        MemQ::partition(|user: &User| user.age == 10),
        MemQ::fold(|values: Vec<Arc<User>>| values.last().cloned()),
    ];
    for op in ops {
        let copy = op.clone();
        assert_eq!(ids(&copy.apply(values.clone())), ids(&op.apply(values.clone())));
    }
}

#[test]
fn values_group_by_wide_and_character_keys() {
    let values = list(&[(1, 1), (2, 2), (3, 1)]);
    let wide = MemQ::group_by(|user: &User| i128::from(user.age));
    assert_eq!(ids(&wide.apply(values.clone())), vec![1, 3, 2]);
    let unsigned = MemQ::unique_by(|user: &User| u128::from(user.age));
    assert_eq!(ids(&unsigned.apply(values.clone())), vec![1, 2]);
    let signed = MemQ::unique_by(|user: &User| user.age as isize);
    assert_eq!(ids(&signed.apply(values.clone())), vec![1, 2]);
    let letters = MemQ::group_by(|user: &User| if user.age == 1 { 'a' } else { 'b' });
    assert_eq!(ids(&letters.apply(values)), vec![1, 3, 2]);
}

#[test]
fn values_sort_by_pairs_and_optional_keys() {
    let values = list(&[(4, 20), (1, 30), (3, 10), (2, 20)]);
    let pairs = MemQ::sort_by_key(|user: &User| (user.age, user.id));
    assert_eq!(ids(&pairs.apply(values.clone())), vec![3, 2, 4, 1]);
    let optional = MemQ::sort_by_key(|user: &User| if user.age > 15 { Some(user.id) } else { None });
    assert_eq!(ids(&optional.apply(values.clone())), vec![3, 1, 2, 4]);
    let letters = MemQ::sort_by_key(|user: &User| if user.age == 20 { 'a' } else { 'b' });
    assert_eq!(ids(&letters.apply(values)), vec![4, 2, 1, 3]);
}
