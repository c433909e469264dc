//! Function names: which ones the cache admits, and which ones select a
//! binary of their own.

use vstd::prelude::*;
use vstd::string::*;
use vstd::utf8::{encode_utf8, encode_utf8_decode_utf8};

verus! {

/// Name under which the package's default binary is invoked.
pub const DEFAULT_PACKAGE_FUNCTION: &'static str = "_";

/// Longest function name, in characters, that the cache admits.
pub const MAX_FUNCTION_NAME_LEN: usize = 64;

/// The characters of [`DEFAULT_PACKAGE_FUNCTION`].
pub open spec fn default_package_name() -> Seq<char> {
    DEFAULT_PACKAGE_FUNCTION@
}

/// The default package's name is the single character `_`. Like the empty
/// name it is well formed and selects no binary; every other name selects
/// the binary that it names.
pub proof fn lemma_binary_selection(name: Seq<char>)
    ensures
        default_package_name() =~= seq!['_'],
        valid_function_name(default_package_name()),
        valid_function_name(Seq::<char>::empty()),
        !selects_binary(default_package_name()),
        !selects_binary(Seq::<char>::empty()),
        selects_binary(name) <==> name != Seq::<char>::empty() && name != seq!['_'],
{
    reveal_strlit("_");
    if name.len() == 0 {
        assert(name =~= Seq::<char>::empty());
    }
}

/// A name selects a binary of its own unless it is empty or stands for the
/// package's default binary.
pub open spec fn selects_binary(name: Seq<char>) -> bool {
    name.len() > 0 && name != default_package_name()
}

/// Characters that a function name may hold: ASCII letters and digits, the
/// hyphen and the underscore.
pub open spec fn is_name_char(c: char) -> bool {
    ||| 'a' <= c <= 'z'
    ||| 'A' <= c <= 'Z'
    ||| '0' <= c <= '9'
    ||| c == '-'
    ||| c == '_'
}

/// A function name is well formed when it has at most
/// [`MAX_FUNCTION_NAME_LEN`] characters, all of them name characters. The
/// empty name is well formed: it stands for the default binary.
pub open spec fn valid_function_name(name: Seq<char>) -> bool {
    &&& name.len() <= MAX_FUNCTION_NAME_LEN
    &&& forall|i: int| 0 <= i < name.len() ==> is_name_char(#[trigger] name[i])
}

/// Whether `name` asks for a binary of its own, so that the build has to
/// select it explicitly.
pub fn is_valid_bin_name(name: &str) -> (valid: bool)
    ensures
        valid == selects_binary(name@),
{
    !name.is_empty() && !same_text(name, DEFAULT_PACKAGE_FUNCTION)
}

/// Whether `c` may stand in a function name.
pub fn is_valid_name_char(c: char) -> (valid: bool)
    ensures
        valid == is_name_char(c),
{
    ('a' <= c && c <= 'z') || ('A' <= c && c <= 'Z') || ('0' <= c && c <= '9') || c == '-'
        || c == '_'
}

/// Whether the cache admits `name` as a function name.
pub fn is_valid_function_name(name: &str) -> (valid: bool)
    ensures
        valid == valid_function_name(name@),
{
    let len: usize = name.unicode_len();
    if len > MAX_FUNCTION_NAME_LEN {
        return false;
    }
    let mut i: usize = 0;
    while i < len
        invariant
            len == name@.len(),
            i <= len,
            forall|j: int| 0 <= j < i ==> is_name_char(#[trigger] name@[j]),
        decreases len - i,
    {
        if !is_valid_name_char(name.get_char(i)) {
            return false;
        }
        i += 1;
    }
    true
}

/// Whether `a` and `b` hold the same characters.
pub fn same_text(a: &str, b: &str) -> (same: bool)
    ensures
        same == (a@ == b@),
{
    let left: &[u8] = a.as_bytes();
    let right: &[u8] = b.as_bytes();
    proof {
        encode_utf8_decode_utf8(a@);
        encode_utf8_decode_utf8(b@);
    }
    if left.len() != right.len() {
        return false;
    }
    let mut i: usize = 0;
    while i < left.len()
        invariant
            left@ == encode_utf8(a@),
            right@ == encode_utf8(b@),
            left@.len() == right@.len(),
            i <= left@.len(),
            forall|j: int| 0 <= j < i ==> left@[j] == right@[j],
        decreases left.len() - i,
    {
        if left[i] != right[i] {
            return false;
        }
        i += 1;
    }
    assert(left@ =~= right@);
    true
}

} // verus!
