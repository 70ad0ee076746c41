//! The Unicode services the lexer takes from outside crates: identifier
//! classes (`unicode-ident`), canonical composition (`unicode-normalization`)
//! and secure wiping of buffers (`zeroize`).

use vstd::prelude::*;
use crate::text::spec_is_ascii_alpha;
use crate::text::spec_is_ascii_digit;
use unicode_normalization::UnicodeNormalization;
use zeroize::Zeroize;

verus! {

/// Whether `c` has the Unicode property XID_Start (computed by `unicode-ident`).
pub uninterp spec fn xid_start(c: char) -> bool;

/// Whether `c` has the Unicode property XID_Continue (computed by `unicode-ident`).
pub uninterp spec fn xid_continue(c: char) -> bool;

/// The Unicode Normalization Form C of a character sequence
/// (canonical decomposition followed by canonical composition).
pub uninterp spec fn nfc(s: Seq<char>) -> Seq<char>;

/// `unicode_ident::is_xid_start`. Claims: the result is the XID_Start property of `c`;
/// on ASCII it holds exactly of the letters (the crate's ASCII table).
#[verifier::external_body]
pub(crate) fn is_xid_start(c: char) -> (r: bool)
    ensures
        r == xid_start(c),
        (c as u32) < 128 ==> (r <==> spec_is_ascii_alpha(c)),
{
    unicode_ident::is_xid_start(c)
}

/// `unicode_ident::is_xid_continue`. Claims: the result is the XID_Continue property of `c`;
/// on ASCII it holds exactly of letters, digits and `_` (the crate's ASCII table).
#[verifier::external_body]
pub(crate) fn is_xid_continue(c: char) -> (r: bool)
    ensures
        r == xid_continue(c),
        (c as u32) < 128 ==> (r <==> (spec_is_ascii_alpha(c) || spec_is_ascii_digit(c) || c == '_')),
{
    unicode_ident::is_xid_continue(c)
}

/// `UnicodeNormalization::nfc` on a string slice, collected into characters.
/// Claims: the result is the NFC form of the input; and, as for every `Vec` (whose
/// allocation std documents never to exceed `isize::MAX` bytes), its four-byte characters
/// take at most `isize::MAX` bytes.
#[verifier::external_body]
pub(crate) fn nfc_chars(s: &str) -> (r: Vec<char>)
    ensures
        r@ == nfc(s@),
        r@.len() * 4 <= isize::MAX,
{
    s.nfc().collect()
}

/// `Zeroize for String`: overwrites the bytes with zeros and empties the string.
#[verifier::external_body]
pub(crate) fn wipe(s: &mut String)
    ensures
        final(s)@ == Seq::<char>::empty(),
{
    s.zeroize();
}

} // verus!
