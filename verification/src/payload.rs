//! Values as bytes.

use vstd::prelude::*;

verus! {

/// A value that can be written as bytes and read back.
pub trait WirePayload: Sized {
    /// Whether encoding the value may give this: anything, unless an implementation says
    /// more.
    open spec fn may_encode(&self, r: Result<Seq<u8>, Seq<char>>) -> bool {
        true
    }

    /// Whether decoding a value from the start of `bytes` may give this: the value and
    /// how many bytes it takes. Anything, unless an implementation says more.
    open spec fn may_decode(bytes: Seq<u8>, r: Result<(Self, nat), Seq<char>>) -> bool {
        true
    }

    /// Encodes the value.
    fn encode(&self) -> (r: Result<Vec<u8>, String>)
        ensures
            self.may_encode(crate::wire::seen_bytes(r)),
    ;

    /// Decodes a value from the start of `bytes`.
    fn decode(bytes: &[u8]) -> (r: Result<(Self, usize), String>)
        ensures
            Self::may_decode(bytes@, seen_decoded(r)),
            r matches Ok(decoded) ==> decoded.1 <= bytes@.len(),
    ;
}

/// A decoded value, or what the decoder said.
pub open spec fn seen_decoded<V>(r: Result<(V, usize), String>) -> Result<(V, nat), Seq<char>> {
    match r {
        Ok((value, taken)) => Ok((value, taken as nat)),
        Err(text) => Err(text@),
    }
}

/// Whatever is encoded decodes to the value again, whatever follows it.
pub open spec fn reads_back<V: WirePayload>() -> bool {
    forall|value: V, bytes: Seq<u8>, rest: Seq<u8>, r: Result<(V, nat), Seq<char>>|
        #![trigger value.may_encode(Ok(bytes)), V::may_decode(bytes + rest, r)]
        value.may_encode(Ok(bytes)) && V::may_decode(bytes + rest, r)
            ==> r == Ok::<(V, nat), Seq<char>>((value, bytes.len()))
}

/// A signed number as an unsigned one: 0, -1, 1, -2, 2 and so on are counted up from 0.
pub open spec fn zigzag(n: int) -> nat {
    if n >= 0 {
        (2 * n) as nat
    } else {
        (-2 * n - 1) as nat
    }
}

/// A number in groups of seven bits, least significant first; every byte but the last has
/// its high bit set.
pub open spec fn varint(n: nat) -> Seq<u8>
    decreases n,
{
    if n < 128 {
        seq![n as u8]
    } else {
        seq![(128 + n % 128) as u8] + varint(n / 128)
    }
}

/// The bytes of an id.
pub open spec fn id_code(id: i64) -> Seq<u8> {
    varint(zigzag(id as int))
}

/// What `postcard::take_from_bytes` makes of the start of `bytes`, read as an `i64`: the
/// number and the bytes that are left, or what the error says.
pub uninterp spec fn taken_id(bytes: Seq<u8>) -> Result<(i64, Seq<u8>), Seq<char>>;

/// An id and the bytes left, or what the decoder said.
pub open spec fn seen_id(r: Result<(i64, &[u8]), String>) -> Result<(i64, Seq<u8>), Seq<char>> {
    match r {
        Ok((id, rest)) => Ok((id, rest@)),
        Err(text) => Err(text@),
    }
}

/// The encoded id.
pub open spec fn is_code_of(r: Result<Vec<u8>, String>, id: i64) -> bool {
    r matches Ok(bytes) && bytes@ == id_code(id)
}

/// Where `bytes` start with the code of an id, `r` is the id and what follows.
pub open spec fn takes_codes(bytes: Seq<u8>, r: Result<(i64, Seq<u8>), Seq<char>>) -> bool {
    forall|id: i64, rest: Seq<u8>|
        bytes == #[trigger] (id_code(id) + rest) ==> r == Ok::<(i64, Seq<u8>), Seq<char>>(
            (id, rest),
        )
}

/// Encodes an id.
///
/// Calls `postcard::to_allocvec`, which writes an `i64` as the varint of its zigzag code
/// and cannot fail on it.
#[verifier::external_body]
fn id_to_bytes(id: &i64) -> (r: Result<Vec<u8>, String>)
    ensures
        is_code_of(r, *id),
{
    postcard::to_allocvec(id).map_err(|err| err.to_string())
}

/// Decodes an id from the start of `bytes`.
///
/// Calls `postcard::take_from_bytes`, whose result is a function of the bytes. What it
/// leaves is the end of the bytes, and it reads back what `postcard::to_allocvec` writes.
#[verifier::external_body]
fn id_from_bytes(bytes: &[u8]) -> (r: Result<(i64, &[u8]), String>)
    ensures
        seen_id(r) == taken_id(bytes@),
        r matches Ok(taken) ==> taken.1@.len() <= bytes@.len(),
        takes_codes(bytes@, seen_id(r)),
{
    postcard::take_from_bytes(bytes).map_err(|err| err.to_string())
}

impl WirePayload for i64 {
    open spec fn may_encode(&self, r: Result<Seq<u8>, Seq<char>>) -> bool {
        r == Ok::<Seq<u8>, Seq<char>>(id_code(*self))
    }

    open spec fn may_decode(bytes: Seq<u8>, r: Result<(Self, nat), Seq<char>>) -> bool {
        &&& match taken_id(bytes) {
            Ok((id, rest)) => r == Ok::<(i64, nat), Seq<char>>(
                (id, (bytes.len() - rest.len()) as nat),
            ),
            Err(text) => r == Err::<(i64, nat), Seq<char>>(text),
        }
        &&& forall|id: i64, rest: Seq<u8>|
            bytes == #[trigger] (id_code(id) + rest) ==> r == Ok::<(i64, nat), Seq<char>>(
                (id, id_code(id).len()),
            )
    }

    fn encode(&self) -> (r: Result<Vec<u8>, String>) {
        id_to_bytes(self)
    }

    fn decode(bytes: &[u8]) -> (r: Result<(Self, usize), String>) {
        match id_from_bytes(bytes) {
            Ok((id, rest)) => Ok((id, bytes.len() - rest.len())),
            Err(text) => Err(text),
        }
    }
}

/// An id is read back as it was written.
pub proof fn ids_read_back()
    ensures
        reads_back::<i64>(),
{
}

} // verus!
