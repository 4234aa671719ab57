//! Paths into JSON values.

use vstd::prelude::*;
use vstd::string::*;
use crate::jsahibon::{JObject, JSahibON};

verus! {

/// The texts of a list of strings.
pub open spec fn texts(strings: Seq<String>) -> Seq<Seq<char>> {
    Seq::new(strings.len(), |i: int| strings[i]@)
}

/// A path into a JSON value: the keys to follow, one after the other.
#[derive(Debug)]
pub struct JPath {
    segments: Vec<String>,
}

impl View for JPath {
    type V = Seq<Seq<char>>;

    /// The keys to follow.
    closed spec fn view(&self) -> Seq<Seq<char>> {
        texts(self.segments@)
    }
}

/// Whether a character can start a plain segment.
pub open spec fn starts_segment(c: char) -> bool {
    'a' <= c <= 'z' || 'A' <= c <= 'Z' || c == '_'
}

/// Whether a character can go on a plain segment.
pub open spec fn continues_segment(c: char) -> bool {
    starts_segment(c) || '0' <= c <= '9'
}

/// A segment that a dotted path can have: an ASCII identifier of at most 63
/// characters.
pub open spec fn plain_segment(segment: Seq<char>) -> bool {
    &&& 1 <= segment.len() <= 63
    &&& starts_segment(segment[0])
    &&& forall|i: int| 0 <= i < segment.len() ==> continues_segment(#[trigger] segment[i])
}

/// The parts of a text between its dots.
pub open spec fn split_dots(text: Seq<char>) -> Seq<Seq<char>>
    decreases text.len(),
{
    if text.len() == 0 {
        seq![Seq::empty()]
    } else {
        let before = split_dots(text.drop_last());
        if text.last() == '.' {
            before.push(Seq::empty())
        } else {
            before.drop_last().push(before.last().push(text.last()))
        }
    }
}

/// A dotted path of plain segments.
pub open spec fn plain_path(text: Seq<char>) -> bool {
    forall|i: int| 0 <= i < split_dots(text).len() ==> plain_segment(#[trigger] split_dots(text)[i])
}

/// There is always a part, and the parts hold the characters that are no dots.
proof fn lemma_split_dots(text: Seq<char>)
    ensures
        split_dots(text).len() >= 1,
        forall|k: int|
            0 <= k < text.len() && text[k] != '.' ==> exists|i: int, j: int|
                0 <= i < split_dots(text).len() && 0 <= j < split_dots(text)[i].len() && (
                #[trigger] split_dots(text)[i][j]) == #[trigger] text[k],
    decreases text.len(),
{
    if text.len() > 0 {
        let front = text.drop_last();
        lemma_split_dots(front);
        let before = split_dots(front);
        let after = split_dots(text);
        assert forall|k: int| 0 <= k < text.len() && text[k] != '.' implies exists|i: int, j: int|
            0 <= i < after.len() && 0 <= j < after[i].len() && (#[trigger] after[i][j])
                == #[trigger] text[k] by {
            if k < front.len() {
                assert(front[k] == text[k]);
                let (i, j) = choose|i: int, j: int|
                    0 <= i < before.len() && 0 <= j < before[i].len() && (#[trigger] before[i][j])
                        == front[k];
                assert(after[i][j] == text[k]);
            } else {
                let i = after.len() - 1;
                let j = after[i].len() - 1;
                assert(after[i][j] == text[k]);
            }
        }
    }
}

/// A dotted path of plain segments is ASCII text.
proof fn lemma_plain_path_is_ascii(text: Seq<char>)
    requires
        plain_path(text),
    ensures
        vstd::utf8::is_ascii_chars(text),
{
    lemma_split_dots(text);
    assert forall|k: int| 0 <= k < text.len() implies '\0' <= (#[trigger] text[k]) <= '\u{7f}' by {
        if text[k] != '.' {
            let (i, j) = choose|i: int, j: int|
                0 <= i < split_dots(text).len() && 0 <= j < split_dots(text)[i].len() && (
                #[trigger] split_dots(text)[i][j]) == text[k];
            assert(plain_segment(split_dots(text)[i]));
            assert(continues_segment(split_dots(text)[i][j]));
        }
    }
}

/// Tells whether a segment is plain.
pub fn valid_plain_segment(segment: &str) -> (r: bool)
    ensures
        r == plain_segment(segment@),
{
    if !segment.is_ascii() {
        proof {
            if plain_segment(segment@) {
                assert forall|k: int| 0 <= k < segment@.len() implies '\0' <= (
                #[trigger] segment@[k]) <= '\u{7f}' by {
                    assert(continues_segment(segment@[k]));
                }
                assert(vstd::utf8::is_ascii_chars(segment@));
            }
        }
        return false;
    }
    let n: usize = segment.unicode_len();
    if n == 0 || n > 63 {
        return false;
    }
    let mut i: usize = 0;
    while i < n
        invariant
            segment.is_ascii(),
            n == segment@.len(),
            i <= n,
            forall|j: int| 0 <= j < i ==> continues_segment(#[trigger] segment@[j]),
            i > 0 ==> starts_segment(segment@[0]),
        decreases n - i,
    {
        let c: char = segment.get_char(i);
        let letter = ('a' <= c && c <= 'z') || ('A' <= c && c <= 'Z') || c == '_';
        let number = '0' <= c && c <= '9';
        if !letter && (i == 0 || !number) {
            return false;
        }
        i += 1;
    }
    true
}

impl JPath {
    /// Makes the path of no keys.
    pub fn root() -> (r: Self)
        ensures
            r@ == Seq::<Seq<char>>::empty(),
    {
        let r = JPath { segments: Vec::new() };
        assert(r@ =~= Seq::<Seq<char>>::empty());
        r
    }

    /// Makes a path of keys, taken as they are.
    pub fn from_segments(segments: Vec<String>) -> (r: Self)
        ensures
            r@ == texts(segments@),
    {
        JPath { segments }
    }

    /// Makes a path of a dotted text; `None` where a segment is not plain.
    pub fn try_parse_dotted(path: &str) -> (r: Option<Self>)
        ensures
            match r {
                Some(parsed) => plain_path(path@) && parsed@ == split_dots(path@),
                None => !plain_path(path@),
            },
    {
        if !path.is_ascii() {
            proof {
                if plain_path(path@) {
                    lemma_plain_path_is_ascii(path@);
                }
            }
            return None;
        }
        let n: usize = path.unicode_len();
        let mut segments: Vec<String> = Vec::new();
        let mut start: usize = 0;
        let mut i: usize = 0;
        assert(path@.take(0) =~= Seq::<char>::empty());
        assert(texts(segments@).push(path@.subrange(0, 0)) =~= seq![Seq::<char>::empty()]);
        while i < n
            invariant
                path.is_ascii(),
                n == path@.len(),
                start <= i <= n,
                split_dots(path@.take(i as int)) == texts(segments@).push(
                    path@.subrange(start as int, i as int),
                ),
            decreases n - i,
        {
            let c: char = path.get_char(i);
            proof {
                let next = path@.take(i + 1);
                assert(next.drop_last() =~= path@.take(i as int));
                assert(next.last() == c);
                lemma_split_dots(path@.take(i as int));
            }
            if c == '.' {
                let segment = path.substring_ascii(start, i).to_owned();
                let ghost before = segments@;
                segments.push(segment);
                start = i + 1;
                proof {
                    assert(texts(segments@) =~= texts(before).push(segment@));
                    assert(path@.subrange(start as int, i + 1) =~= Seq::<char>::empty());
                }
            } else {
                proof {
                    let before = texts(segments@).push(path@.subrange(start as int, i as int));
                    assert(before.drop_last() =~= texts(segments@));
                    assert(path@.subrange(start as int, i + 1) =~= path@.subrange(
                        start as int,
                        i as int,
                    ).push(c));
                }
            }
            i += 1;
        }
        let last = path.substring_ascii(start, n).to_owned();
        let ghost before = segments@;
        segments.push(last);
        proof {
            assert(path@.take(n as int) =~= path@);
            assert(texts(segments@) =~= texts(before).push(last@));
        }
        let mut k: usize = 0;
        while k < segments.len()
            invariant
                k <= segments@.len(),
                split_dots(path@) == texts(segments@),
                forall|j: int| 0 <= j < k ==> plain_segment(#[trigger] texts(segments@)[j]),
            decreases segments@.len() - k,
        {
            if !valid_plain_segment(segments[k].as_str()) {
                assert(!plain_segment(split_dots(path@)[k as int]));
                return None;
            }
            k += 1;
        }
        Some(JPath { segments })
    }

    /// Makes a path of a dotted text of plain segments.
    pub fn parse_dotted(path: &str) -> (r: Self)
        requires
            plain_path(path@),
        ensures
            r@ == split_dots(path@),
    {
        match Self::try_parse_dotted(path) {
            Some(parsed) => parsed,
            None => Self::root(),
        }
    }

    /// Reads the keys.
    pub fn segments(&self) -> (r: &Vec<String>)
        ensures
            texts(r@) == self@,
    {
        &self.segments
    }

    /// Makes a path of the same keys.
    pub fn copy(&self) -> (r: Self)
        ensures
            r@ == self@,
    {
        let mut segments: Vec<String> = Vec::new();
        let mut i: usize = 0;
        while i < self.segments.len()
            invariant
                i <= self.segments@.len(),
                segments@.len() == i,
                forall|j: int| 0 <= j < i ==> segments@[j]@ == self.segments@[j]@,
            decreases self.segments@.len() - i,
        {
            segments.push(self.segments[i].clone());
            i += 1;
        }
        let r = JPath { segments };
        assert(r@ =~= self@);
        r
    }

    /// Makes a path that goes on with `key`.
    pub fn push(&self, key: String) -> (r: Self)
        ensures
            r@ == self@.push(key@),
    {
        let mut r = self.copy();
        r.segments.push(key);
        assert(r@ =~= self@.push(key@));
        r
    }

    /// Makes a path that goes on with `keys`.
    pub fn extend(&self, keys: Vec<String>) -> (r: Self)
        ensures
            r@ == self@ + texts(keys@),
    {
        let ghost all = keys@;
        let mut r = self.copy();
        let mut keys = keys;
        r.segments.append(&mut keys);
        assert(r@ =~= self@ + texts(all));
        r
    }
}

impl Default for JPath {
    fn default() -> (r: Self)
        ensures
            r@ == Seq::<Seq<char>>::empty(),
    {
        JPath::root()
    }
}

/// What a path leads to: each key is followed in an object.
pub open spec fn resolved(root: Option<JSahibON>, path: Seq<Seq<char>>) -> Option<JSahibON>
    decreases path.len(),
{
    if path.len() == 0 {
        root
    } else {
        match resolved(root, path.drop_last()) {
            Some(JSahibON::Object(object)) => crate::jsahibon::lookup(object@, path.last()),
            _ => None,
        }
    }
}

/// A path that breaks off stays broken.
proof fn lemma_broken_path(root: Option<JSahibON>, path: Seq<Seq<char>>, i: int)
    requires
        0 <= i <= path.len(),
        resolved(root, path.take(i)) is None,
    ensures
        resolved(root, path) is None,
    decreases path.len(),
{
    if i == path.len() {
        assert(path.take(i) =~= path);
    } else {
        assert(path.drop_last().take(i) =~= path.take(i));
        lemma_broken_path(root, path.drop_last(), i);
    }
}

/// An absent value, where it is one.
pub open spec fn deref(root: Option<&JSahibON>) -> Option<JSahibON> {
    match root {
        Some(value) => Some(*value),
        None => None,
    }
}

/// Follows a path.
pub fn resolve_path<'a>(root: Option<&'a JSahibON>, path: &JPath) -> (r: Option<&'a JSahibON>)
    ensures
        deref(r) == resolved(deref(root), path@),
{
    let mut current: &'a JSahibON = match root {
        Some(value) => value,
        None => {
            proof {
                assert(path@.take(0) =~= Seq::<Seq<char>>::empty());
                lemma_broken_path(None, path@, 0);
            }
            return None;
        },
    };
    let ghost start = deref(root);
    let mut i: usize = 0;
    assert(path@.take(0) =~= Seq::<Seq<char>>::empty());
    while i < path.segments.len()
        invariant
            i <= path.segments@.len(),
            start == deref(root),
            path@.len() == path.segments@.len(),
            resolved(start, path@.take(i as int)) == Some(*current),
        decreases path.segments@.len() - i,
    {
        proof {
            assert(path@.take(i + 1).drop_last() =~= path@.take(i as int));
            assert(path@.take(i + 1).last() == path.segments@[i as int]@);
        }
        match current {
            JSahibON::Object(object) => match object.get(path.segments[i].as_str()) {
                Some(value) => {
                    current = value;
                },
                None => {
                    proof {
                        lemma_broken_path(start, path@, i + 1);
                    }
                    return None;
                },
            },
            _ => {
                proof {
                    lemma_broken_path(start, path@, i + 1);
                }
                return None;
            },
        }
        i += 1;
    }
    assert(path@.take(i as int) =~= path@);
    Some(current)
}

/// The object that a path leads to.
pub open spec fn object_spec(root: Option<JSahibON>, path: Seq<Seq<char>>) -> Option<JObject> {
    match resolved(root, path) {
        Some(JSahibON::Object(object)) => Some(object),
        _ => None,
    }
}

/// Follows a path to an object.
pub fn object_at<'a>(root: Option<&'a JSahibON>, path: &JPath) -> (r: Option<&'a JObject>)
    ensures
        r is Some == object_spec(deref(root), path@) is Some,
        r matches Some(object) ==> object_spec(deref(root), path@) == Some(*object),
{
    match resolve_path(root, path) {
        Some(JSahibON::Object(object)) => Some(object),
        _ => None,
    }
}

/// Parts with dots between them.
pub open spec fn joined_by_dots(parts: Seq<Seq<char>>) -> Seq<char>
    decreases parts.len(),
{
    if parts.len() == 0 {
        Seq::empty()
    } else if parts.len() == 1 {
        parts[0]
    } else {
        joined_by_dots(parts.drop_last()).push('.') + parts.last()
    }
}

/// A dotted text is its parts with dots between them, and no part has a dot.
pub proof fn dotted_texts_are_their_parts(text: Seq<char>)
    ensures
        split_dots(text).len() >= 1,
        joined_by_dots(split_dots(text)) == text,
        forall|i: int, j: int|
            0 <= i < split_dots(text).len() && 0 <= j < split_dots(text)[i].len()
                ==> #[trigger] split_dots(text)[i][j] != '.',
    decreases text.len(),
{
    let parts = split_dots(text);
    if text.len() > 0 {
        let front = text.drop_last();
        dotted_texts_are_their_parts(front);
        let before = split_dots(front);
        assert(text =~= front.push(text.last()));
        if text.last() == '.' {
            assert(parts.drop_last() =~= before);
            assert(joined_by_dots(parts) =~= text);
        } else {
            assert(parts.drop_last() =~= before.drop_last());
            if before.len() == 1 {
                assert(parts[0] == before[0].push(text.last()));
                assert(joined_by_dots(parts) =~= text);
            } else {
                assert(joined_by_dots(parts) =~= text);
            }
        }
        assert forall|i: int, j: int|
            0 <= i < parts.len() && 0 <= j < parts[i].len() implies #[trigger] parts[i][j]
            != '.' by {
            if i < parts.len() - 1 {
                assert(parts[i] == before[i]);
                assert(before[i][j] != '.');
            } else if text.last() != '.' {
                if j < before.last().len() {
                    assert(before[before.len() - 1][j] != '.');
                }
            }
        }
    }
}

/// A plain segment is an identifier: a letter or an underscore, then letters, digits and
/// underscores, up to sixty-three in all.
pub proof fn plain_segments_are_identifiers(segment: Seq<char>)
    ensures
        plain_segment(segment) <==> {
            &&& 0 < segment.len() < 64
            &&& !('0' <= segment[0] <= '9')
            &&& forall|i: int|
                0 <= i < segment.len() ==> {
                    let c = #[trigger] segment[i];
                    ('a' <= c <= 'z') || ('A' <= c <= 'Z') || c == '_' || ('0' <= c <= '9')
                }
        },
{
    if 0 < segment.len() {
        let c = segment[0];
        if plain_segment(segment) {
            assert(continues_segment(segment[0]));
            assert forall|i: int| 0 <= i < segment.len() implies {
                let c = #[trigger] segment[i];
                ('a' <= c <= 'z') || ('A' <= c <= 'Z') || c == '_' || ('0' <= c <= '9')
            } by {
                assert(continues_segment(segment[i]));
            }
        }
    }
}

} // verus!
