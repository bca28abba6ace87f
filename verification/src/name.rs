//! Names as Vulkan takes them: C strings, which end at their first zero byte.
//!
//! A name that holds a zero byte cannot be passed on. It is rejected here,
//! with its bytes and the place of the byte, before any string is built.

use vstd::prelude::*;
use vstd::slice::slice_to_vec;
use vstd::utf8::{char_is_scalar, char_u32_cast, encode_scalar, encode_utf8, is_scalar};

verus! {

/// The bytes a name is passed as: its UTF-8 encoding.
pub open spec fn name_bytes(name: Seq<char>) -> Seq<u8> {
    encode_utf8(name)
}

/// No byte of `bytes` is zero.
pub open spec fn nul_free(bytes: Seq<u8>) -> bool {
    forall|i: int| 0 <= i < bytes.len() ==> bytes[i] != 0u8
}

/// `at` is the place of the first zero byte of `bytes`.
pub open spec fn first_nul_at(bytes: Seq<u8>, at: int) -> bool {
    &&& 0 <= at < bytes.len()
    &&& bytes[at] == 0u8
    &&& forall|i: int| 0 <= i < at ==> bytes[i] != 0u8
}

/// Every name of `names` can be passed as a C string.
pub open spec fn all_accepted(names: Seq<Seq<char>>) -> bool {
    forall|k: int| 0 <= k < names.len() ==> nul_free(#[trigger] name_bytes(names[k]))
}

/// `at` is the place of the first name of `names` that holds a zero byte.
pub open spec fn first_rejected_at(names: Seq<Seq<char>>, at: int) -> bool {
    &&& 0 <= at < names.len()
    &&& !nul_free(name_bytes(names[at]))
    &&& forall|k: int| 0 <= k < at ==> nul_free(#[trigger] name_bytes(names[k]))
}

/// A name that was rejected: its bytes, and the place of the first zero byte
/// among them.
#[derive(Debug)]
pub struct NulError {
    position: usize,
    bytes: Vec<u8>,
}

impl NulError {
    #[verifier::type_invariant]
    spec fn well_formed(self) -> bool {
        first_nul_at(self.bytes@, self.position as int)
    }

    /// The place of the zero byte that caused the rejection.
    pub closed spec fn position(self) -> int {
        self.position as int
    }

    /// The bytes of the rejected name.
    pub closed spec fn bytes(self) -> Seq<u8> {
        self.bytes@
    }

    /// The error is the one that `name` is rejected with.
    pub open spec fn reports(self, name: Seq<char>) -> bool {
        &&& self.bytes() == name_bytes(name)
        &&& first_nul_at(self.bytes(), self.position())
    }

    /// The error is the one that the first rejected name of `names` is
    /// rejected with.
    pub open spec fn reports_first_of(self, names: Seq<Seq<char>>) -> bool {
        exists|at: int| first_rejected_at(names, at) && self.reports(#[trigger] names[at])
    }

    /// The place of the zero byte that caused the rejection.
    pub fn nul_position(&self) -> (position: usize)
        ensures
            position == self.position(),
            first_nul_at(self.bytes(), position as int),
    {
        proof {
            use_type_invariant(self);
        }
        self.position
    }

    /// The bytes of the rejected name.
    pub fn into_vec(self) -> (bytes: Vec<u8>)
        ensures
            bytes@ == self.bytes(),
            first_nul_at(bytes@, self.position()),
    {
        proof {
            use_type_invariant(&self);
        }
        self.bytes
    }
}

/// Looks for the first zero byte of `bytes`.
pub fn find_nul(bytes: &[u8]) -> (found: Option<usize>)
    ensures
        match found {
            Some(at) => first_nul_at(bytes@, at as int),
            None => nul_free(bytes@),
        },
{
    let mut i: usize = 0;
    while i < bytes.len()
        invariant
            i <= bytes@.len(),
            forall|j: int| 0 <= j < i ==> bytes@[j] != 0u8,
        decreases bytes@.len() - i,
    {
        if bytes[i] == 0 {
            return Some(i);
        }
        i += 1;
    }
    None
}

/// Accepts `name` if it can be passed as a C string, and rejects it with its
/// bytes and the place of their first zero byte if it cannot.
pub fn check_name(name: &str) -> (checked: Result<(), NulError>)
    ensures
        match checked {
            Ok(()) => nul_free(name_bytes(name@)),
            Err(error) => error.reports(name@),
        },
{
    let bytes = name.as_bytes();
    match find_nul(bytes) {
        Some(position) => Err(NulError { position, bytes: slice_to_vec(bytes) }),
        None => Ok(()),
    }
}

/// Checks `names` from the first to the last and stops at the first that is
/// rejected.
pub fn check_names(names: &Vec<String>) -> (checked: Result<(), NulError>)
    ensures
        match checked {
            Ok(()) => all_accepted(names.deep_view()),
            Err(error) => error.reports_first_of(names.deep_view()),
        },
{
    let mut k: usize = 0;
    while k < names.len()
        invariant
            k <= names@.len(),
            forall|j: int| 0 <= j < k ==> nul_free(#[trigger] name_bytes(names.deep_view()[j])),
        decreases names@.len() - k,
    {
        match check_name(names[k].as_str()) {
            Ok(()) => {},
            Err(error) => {
                assert(first_rejected_at(names.deep_view(), k as int));
                return Err(error);
            },
        }
        k += 1;
    }
    Ok(())
}

/// A list is accepted exactly when its two parts are.
pub proof fn lemma_accepted_parts(head: Seq<Seq<char>>, rest: Seq<Seq<char>>)
    ensures
        all_accepted(head + rest) <==> all_accepted(head) && all_accepted(rest),
{
    let whole = head + rest;
    if all_accepted(whole) {
        assert forall|k: int| 0 <= k < head.len() implies nul_free(
            #[trigger] name_bytes(head[k]),
        ) by {
            assert(nul_free(name_bytes(whole[k])));
        }
        assert forall|k: int| 0 <= k < rest.len() implies nul_free(
            #[trigger] name_bytes(rest[k]),
        ) by {
            assert(nul_free(name_bytes(whole[head.len() + k])));
        }
    }
    if all_accepted(head) && all_accepted(rest) {
        assert forall|k: int| 0 <= k < whole.len() implies nul_free(
            #[trigger] name_bytes(whole[k]),
        ) by {
            if k < head.len() {
                assert(nul_free(name_bytes(head[k])));
            } else {
                assert(nul_free(name_bytes(rest[k - head.len()])));
            }
        }
    }
}

/// Names that are accepted change nothing when they are put before a list:
/// the list is rejected as before, and with the same error.
pub proof fn lemma_rejected_after_accepted(
    head: Seq<Seq<char>>,
    rest: Seq<Seq<char>>,
    error: NulError,
)
    requires
        all_accepted(head),
    ensures
        error.reports_first_of(head + rest) <==> error.reports_first_of(rest),
{
    let whole = head + rest;
    if error.reports_first_of(whole) {
        let at = choose|at: int| first_rejected_at(whole, at) && error.reports(#[trigger] whole[at]);
        assert(at >= head.len()) by {
            if at < head.len() {
                assert(nul_free(name_bytes(head[at])));
            }
        }
        let moved = at - head.len();
        assert forall|k: int| 0 <= k < moved implies nul_free(#[trigger] name_bytes(rest[k])) by {
            assert(nul_free(name_bytes(whole[head.len() + k])));
        }
        assert(first_rejected_at(rest, moved) && error.reports(rest[moved]));
    }
    if error.reports_first_of(rest) {
        let at = choose|at: int| first_rejected_at(rest, at) && error.reports(#[trigger] rest[at]);
        let moved = head.len() + at;
        assert forall|k: int| 0 <= k < moved implies nul_free(#[trigger] name_bytes(whole[k])) by {
            if k < head.len() {
                assert(nul_free(name_bytes(head[k])));
            } else {
                assert(nul_free(name_bytes(rest[k - head.len()])));
            }
        }
        assert(first_rejected_at(whole, moved) && error.reports(whole[moved]));
    }
}

/// A list that is rejected is rejected with the same error whatever is put
/// behind it.
pub proof fn lemma_rejected_first(head: Seq<Seq<char>>, rest: Seq<Seq<char>>, error: NulError)
    requires
        error.reports_first_of(head),
    ensures
        error.reports_first_of(head + rest),
{
    let whole = head + rest;
    let at = choose|at: int| first_rejected_at(head, at) && error.reports(#[trigger] head[at]);
    assert forall|k: int| 0 <= k < at implies nul_free(#[trigger] name_bytes(whole[k])) by {
        assert(nul_free(name_bytes(head[k])));
    }
    assert(first_rejected_at(whole, at) && error.reports(whole[at]));
}

/// A sequence of bytes is free of zero bytes exactly when its two parts are.
proof fn lemma_nul_free_parts(head: Seq<u8>, rest: Seq<u8>)
    ensures
        nul_free(head + rest) <==> nul_free(head) && nul_free(rest),
{
    let whole = head + rest;
    if nul_free(whole) {
        assert forall|i: int| 0 <= i < head.len() implies head[i] != 0u8 by {
            assert(whole[i] == head[i]);
        }
        assert forall|i: int| 0 <= i < rest.len() implies rest[i] != 0u8 by {
            assert(whole[head.len() + i] == rest[i]);
        }
    }
}

/// Of the encodings of single characters, only that of U+0000 holds a zero
/// byte.
proof fn lemma_scalar_bytes(scalar: u32)
    requires
        is_scalar(scalar),
    ensures
        nul_free(encode_scalar(scalar)) <==> scalar != 0,
{
    let bytes = encode_scalar(scalar);
    if scalar <= 0x7F {
        assert(((scalar & 0x7F) as u8 == 0u8) <==> scalar == 0) by (bit_vector)
            requires
                scalar <= 0x7F,
        ;
        assert(bytes.len() == 1);
        assert(bytes[0] == (scalar & 0x7F) as u8);
    } else {
        assert(0xC0u8 | ((scalar >> 6u32) & 0x1F) as u8 != 0u8) by (bit_vector);
        assert(0xE0u8 | ((scalar >> 12u32) & 0x0F) as u8 != 0u8) by (bit_vector);
        assert(0xF0u8 | ((scalar >> 18u32) & 0x7) as u8 != 0u8) by (bit_vector);
        assert(0x80u8 | (scalar & 0x3F) as u8 != 0u8) by (bit_vector);
        assert(0x80u8 | ((scalar >> 6u32) & 0x3F) as u8 != 0u8) by (bit_vector);
        assert(0x80u8 | ((scalar >> 12u32) & 0x3F) as u8 != 0u8) by (bit_vector);
    }
}

/// A name holds a zero byte exactly when it holds the character U+0000: no
/// other character has a zero byte in its encoding.
pub proof fn lemma_nul_byte_is_nul_char(name: Seq<char>)
    ensures
        nul_free(name_bytes(name)) <==> !name.contains('\0'),
    decreases name.len(),
{
    if name.len() > 0 {
        let first = name[0];
        let tail = name.drop_first();
        char_is_scalar(first);
        lemma_scalar_bytes(first as u32);
        lemma_nul_byte_is_nul_char(tail);
        lemma_nul_free_parts(encode_scalar(first as u32), encode_utf8(tail));
        assert(first as u32 != 0 <==> first != '\0') by {
            char_u32_cast(first, first as u32);
            char_u32_cast('\0', 0u32);
        }
        if name.contains('\0') {
            let at = choose|i: int| 0 <= i < name.len() && name[i] == '\0';
            if at > 0 {
                assert(tail[at - 1] == '\0');
            }
        }
        if tail.contains('\0') {
            let at = choose|i: int| 0 <= i < tail.len() && tail[i] == '\0';
            assert(name[at + 1] == '\0');
        }
    }
}

} // verus!
