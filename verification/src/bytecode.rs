//! Deployment code as an artifact carries it, and the linking of libraries
//! into it.
//!
//! The code is hexadecimal text. Where it calls a library whose address was
//! not known when it was compiled, the text holds a placeholder in the place
//! of the address: forty bytes that begin with two underscores, then the
//! library's name, then underscores up to the end. Linking writes the
//! address over the placeholder, as forty hexadecimal digits.
//!
//! The text is read from its start: at two underscores with at least forty
//! bytes left a placeholder begins, and reading goes on behind it. So no two
//! placeholders overlap, and writing hexadecimal digits over one moves none
//! of the others.

use crate::hex;
use crate::linking::{lemma_digits_or_placeholder, lemma_linked_resolves, lemma_linked_valid};
use crate::table::Table;
use crate::types::Address;
use vstd::prelude::*;
use vstd::string::StringSliceAdditionalSpecFns;

verus! {

/// The length of a placeholder, which is that of an address in hexadecimal.
pub const PLACEHOLDER_LEN: usize = 40;

/// The longest library name that a placeholder holds in full.
pub const NAME_LEN: usize = 38;

/// The byte that marks and pads a placeholder: an underscore.
pub const MARK: u8 = 0x5f;

/// Whether a placeholder begins at the start of `text`.
pub open spec fn starts_placeholder(text: Seq<u8>) -> bool {
    text.len() >= PLACEHOLDER_LEN && text[0] == MARK && text[1] == MARK
}

/// Whether `text` is made of hexadecimal digits and placeholders only.
pub open spec fn well_formed(text: Seq<u8>) -> bool
    decreases text.len(),
{
    if text.len() == 0 {
        true
    } else if starts_placeholder(text) {
        well_formed(text.skip(PLACEHOLDER_LEN as int))
    } else {
        hex::is_hex_digit(text[0]) && well_formed(text.skip(1))
    }
}

/// Whether `text` can be deployment code: well formed, and of even length.
pub open spec fn valid(text: Seq<u8>) -> bool {
    well_formed(text) && text.len() % 2 == 0
}

/// Whether `text` holds a placeholder, whatever its name.
pub open spec fn has_placeholder(text: Seq<u8>) -> bool
    decreases text.len(),
{
    if text.len() == 0 {
        false
    } else if starts_placeholder(text) {
        true
    } else {
        has_placeholder(text.skip(1))
    }
}

/// Whether one of the placeholders of `text` is `pattern`.
pub open spec fn occurs(text: Seq<u8>, pattern: Seq<u8>) -> bool
    decreases text.len(),
{
    if text.len() == 0 {
        false
    } else if starts_placeholder(text) {
        text.take(PLACEHOLDER_LEN as int) == pattern || occurs(text.skip(PLACEHOLDER_LEN as int), pattern)
    } else {
        occurs(text.skip(1), pattern)
    }
}

/// The placeholder of the library `name`: two underscores, the first 38
/// bytes of the name, and underscores up to a length of forty.
pub open spec fn placeholder(name: Seq<u8>) -> Seq<u8> {
    Seq::new(
        PLACEHOLDER_LEN as nat,
        |i: int|
            if 2 <= i < 2 + name.len() {
                name[i - 2]
            } else {
                MARK
            },
    )
}

/// `text` with `with` written in the place of every placeholder that is
/// `pattern`.
pub open spec fn replaced(text: Seq<u8>, pattern: Seq<u8>, with: Seq<u8>) -> Seq<u8>
    decreases text.len(),
{
    if text.len() == 0 {
        text
    } else if starts_placeholder(text) {
        (if text.take(PLACEHOLDER_LEN as int) == pattern {
            with
        } else {
            text.take(PLACEHOLDER_LEN as int)
        }) + replaced(text.skip(PLACEHOLDER_LEN as int), pattern, with)
    } else {
        seq![text[0]] + replaced(text.skip(1), pattern, with)
    }
}

/// `text` with the library `name` at `address` linked in.
pub open spec fn linked_one(text: Seq<u8>, name: Seq<char>, address: Address) -> Seq<u8> {
    replaced(text, placeholder(vstd::utf8::encode_utf8(name)), hex::encoded(address@))
}

/// `text` with each of `libraries` linked in, in their order.
pub open spec fn linked(text: Seq<u8>, libraries: Seq<(Seq<char>, Address)>) -> Seq<u8>
    decreases libraries.len(),
{
    if libraries.len() == 0 {
        text
    } else {
        linked_one(linked(text, libraries.drop_last()), libraries.last().0, libraries.last().1)
    }
}

/// Whether `text` holds a placeholder of one of `libraries`.
pub open spec fn any_occurs(text: Seq<u8>, libraries: Seq<(Seq<char>, Address)>) -> bool {
    exists|i: int|
        0 <= i < libraries.len() && occurs(text, placeholder(vstd::utf8::encode_utf8((#[trigger] libraries[i]).0)))
}

/// The placeholders of `libraries`.
pub open spec fn placeholders(libraries: Seq<(Seq<char>, Address)>) -> Set<Seq<u8>> {
    Set::new(
        |pattern: Seq<u8>|
            exists|i: int|
                0 <= i < libraries.len() && placeholder(vstd::utf8::encode_utf8((#[trigger] libraries[i]).0))
                    == pattern,
    )
}

/// Whether every placeholder of `text` is one of `allowed`.
pub open spec fn within(text: Seq<u8>, allowed: Set<Seq<u8>>) -> bool
    decreases text.len(),
{
    if text.len() == 0 {
        true
    } else if starts_placeholder(text) {
        allowed.contains(text.take(PLACEHOLDER_LEN as int)) && within(text.skip(PLACEHOLDER_LEN as int), allowed)
    } else {
        within(text.skip(1), allowed)
    }
}

/// Whether `libraries` has a library for every placeholder of `text`.
pub open spec fn resolvable(text: Seq<u8>, libraries: Seq<(Seq<char>, Address)>) -> bool {
    within(text, placeholders(libraries))
}

/// Tests whether a placeholder begins at `at` in `text`.
fn placeholder_at(text: &[u8], at: usize) -> (res: bool)
    requires
        at <= text@.len(),
    ensures
        res == starts_placeholder(text@.skip(at as int)),
{
    text.len() - at >= PLACEHOLDER_LEN && text[at] == MARK && text[at + 1] == MARK
}

/// Tests whether `text` can be deployment code.
pub fn is_valid(text: &[u8]) -> (res: bool)
    ensures
        res == valid(text@),
{
    let mut i: usize = 0;
    assert(text@.skip(0) =~= text@);
    while i < text.len()
        invariant
            i <= text@.len(),
            well_formed(text@) == well_formed(text@.skip(i as int)),
        decreases text@.len() - i,
    {
        let ghost rest = text@.skip(i as int);
        if placeholder_at(text, i) {
            assert(rest.skip(PLACEHOLDER_LEN as int) =~= text@.skip(i + PLACEHOLDER_LEN));
            i = i + PLACEHOLDER_LEN;
        } else if hex::is_digit(text[i]) {
            assert(rest.skip(1) =~= text@.skip(i + 1));
            i = i + 1;
        } else {
            assert(rest[0] == text@[i as int]);
            return false;
        }
    }
    text.len() % 2 == 0
}

/// Tests whether the placeholder that begins at `at` in `text` is `pattern`.
fn block_is(text: &[u8], at: usize, pattern: &[u8]) -> (res: bool)
    requires
        at + PLACEHOLDER_LEN <= text@.len(),
    ensures
        res == (text@.skip(at as int).take(PLACEHOLDER_LEN as int) == pattern@),
{
    let ghost block = text@.skip(at as int).take(PLACEHOLDER_LEN as int);
    if pattern.len() != PLACEHOLDER_LEN {
        return false;
    }
    let mut k: usize = 0;
    while k < PLACEHOLDER_LEN
        invariant
            k <= PLACEHOLDER_LEN,
            at + PLACEHOLDER_LEN <= text.len(),
            pattern@.len() == PLACEHOLDER_LEN,
            block == text@.skip(at as int).take(PLACEHOLDER_LEN as int),
            forall|j: int| 0 <= j < k ==> block[j] == pattern@[j],
        decreases PLACEHOLDER_LEN - k,
    {
        if text[at + k] != pattern[k] {
            assert(block[k as int] != pattern@[k as int]);
            return false;
        }
        k = k + 1;
    }
    assert(block =~= pattern@);
    true
}

/// Appends the bytes of `source` from `from` up to `to` to `out`.
fn append(out: &mut Vec<u8>, source: &[u8], from: usize, to: usize)
    requires
        from <= to <= source@.len(),
    ensures
        final(out)@ == old(out)@ + source@.subrange(from as int, to as int),
{
    let mut k: usize = from;
    while k < to
        invariant
            from <= k <= to <= source@.len(),
            out@ == old(out)@ + source@.subrange(from as int, k as int),
        decreases to - k,
    {
        out.push(source[k]);
        assert(source@.subrange(from as int, k + 1) =~= source@.subrange(from as int, k as int).push(
            source@[k as int],
        ));
        k = k + 1;
    }
    assert(source@.subrange(from as int, from as int) =~= Seq::<u8>::empty());
}

/// Writes the placeholder of the library `name`.
pub fn make_placeholder(name: &[u8]) -> (res: Vec<u8>)
    ensures
        res@ == placeholder(name@),
{
    let mut out: Vec<u8> = Vec::new();
    out.push(MARK);
    out.push(MARK);
    let mut k: usize = 0;
    while k < NAME_LEN
        invariant
            k <= NAME_LEN,
            out@.len() == 2 + k,
            forall|j: int| 0 <= j < out@.len() ==> out@[j] == placeholder(name@)[j],
        decreases NAME_LEN - k,
    {
        if k < name.len() {
            out.push(name[k]);
        } else {
            out.push(MARK);
        }
        k = k + 1;
    }
    assert(out@ =~= placeholder(name@));
    out
}

/// Writes `with` in the place of every placeholder of `text` that is
/// `pattern`.
pub fn replace(text: &[u8], pattern: &[u8], with: &[u8]) -> (res: Vec<u8>)
    ensures
        res@ == replaced(text@, pattern@, with@),
{
    let mut out: Vec<u8> = Vec::new();
    let mut i: usize = 0;
    assert(text@.skip(0) =~= text@);
    while i < text.len()
        invariant
            i <= text@.len(),
            out@ + replaced(text@.skip(i as int), pattern@, with@) == replaced(text@, pattern@, with@),
        decreases text@.len() - i,
    {
        let ghost rest = text@.skip(i as int);
        let ghost before = out@;
        if placeholder_at(text, i) {
            let ghost tail = replaced(rest.skip(PLACEHOLDER_LEN as int), pattern@, with@);
            assert(rest.skip(PLACEHOLDER_LEN as int) =~= text@.skip(i + PLACEHOLDER_LEN));
            if block_is(text, i, pattern) {
                append(&mut out, with, 0, with.len());
                assert(with@.subrange(0, with@.len() as int) =~= with@);
                assert(out@ + tail =~= before + (with@ + tail));
            } else {
                append(&mut out, text, i, i + PLACEHOLDER_LEN);
                assert(text@.subrange(i as int, i + PLACEHOLDER_LEN) =~= rest.take(PLACEHOLDER_LEN as int));
                assert(out@ + tail =~= before + (rest.take(PLACEHOLDER_LEN as int) + tail));
            }
            i = i + PLACEHOLDER_LEN;
        } else {
            let ghost tail = replaced(rest.skip(1), pattern@, with@);
            assert(rest.skip(1) =~= text@.skip(i + 1));
            out.push(text[i]);
            assert(out@ + tail =~= before + (seq![rest[0]] + tail));
            i = i + 1;
        }
    }
    assert(out@ + Seq::<u8>::empty() =~= out@);
    out
}

/// Deployment code: hexadecimal text, with placeholders where libraries are
/// yet to be linked in. It is valid, always.
#[derive(Debug, PartialEq, Eq)]
pub struct Bytecode {
    text: Vec<u8>,
}

impl View for Bytecode {
    type V = Seq<u8>;

    closed spec fn view(&self) -> Seq<u8> {
        self.text@
    }
}

impl Clone for Bytecode {
    fn clone(&self) -> (res: Bytecode)
        ensures
            res@ == self@,
    {
        proof {
            use_type_invariant(self);
        }
        Bytecode { text: self.text.clone() }
    }
}

impl Bytecode {
    #[verifier::type_invariant]
    spec fn inv(self) -> bool {
        valid(self.text@)
    }

    /// Reads code from its text; `None` where the text is not valid.
    pub fn from_hex_str(text: &str) -> (res: Option<Bytecode>)
        ensures
            res is Some <==> valid(text.spec_bytes()),
            res matches Some(code) ==> code@ == text.spec_bytes(),
    {
        let bytes = text.as_bytes();
        if is_valid(bytes) {
            Some(Bytecode { text: vstd::slice::slice_to_vec(bytes) })
        } else {
            None
        }
    }

    /// The text of the code.
    pub fn as_bytes(&self) -> (res: &[u8])
        ensures
            res@ == self@,
            valid(self@),
    {
        proof {
            use_type_invariant(self);
        }
        self.text.as_slice()
    }

    /// Tests whether a library is yet to be linked in.
    pub fn has_placeholder(&self) -> (res: bool)
        ensures
            res == has_placeholder(self@),
    {
        let mut i: usize = 0;
        assert(self.text@.skip(0) =~= self.text@);
        while i < self.text.len()
            invariant
                i <= self.text@.len(),
                has_placeholder(self.text@) == has_placeholder(self.text@.skip(i as int)),
            decreases self.text@.len() - i,
        {
            if placeholder_at(self.text.as_slice(), i) {
                return true;
            }
            assert(self.text@.skip(i as int).skip(1) =~= self.text@.skip(i + 1));
            i = i + 1;
        }
        false
    }

    /// The bytes that the code spells out, once no library is left to link
    /// in; `None` while one is.
    pub fn to_bytes(&self) -> (res: Option<Vec<u8>>)
        ensures
            res is Some <==> !has_placeholder(self@),
            res is Some <==> hex::all_hex(self@),
            res matches Some(bytes) ==> bytes@ == hex::decoded(self@),
    {
        proof {
            use_type_invariant(self);
            lemma_digits_or_placeholder(self.text@);
        }
        hex::decode(self.text.as_slice())
    }
}

/// Links `libraries` into `code`: for each in turn, its address is written,
/// as forty lower-case hexadecimal digits, over every placeholder of its
/// name. A library of which the code holds no placeholder changes nothing.
pub fn link(code: Bytecode, libraries: &Table<Address>) -> (res: Bytecode)
    ensures
        res@ == linked(code@, libraries.pairs()),
        valid(code@),
        valid(res@),
        res@.len() == code@.len(),
        !has_placeholder(res@) <==> resolvable(code@, libraries.pairs()),
{
    proof {
        use_type_invariant(&code);
    }
    let ghost all = libraries.pairs();
    let mut text: Vec<u8> = code.text;
    let ghost start = text@;
    let mut i: usize = 0;
    assert(all.take(0) =~= Seq::<(Seq<char>, Address)>::empty());
    while i < libraries.len()
        invariant
            i <= all.len(),
            all == libraries.pairs(),
            valid(start),
            text@ == linked(start, all.take(i as int)),
        decreases all.len() - i,
    {
        let (name, address) = libraries.entry(i).unwrap();
        let pattern = make_placeholder(name.as_str().as_bytes());
        let digits = address.to_hex();
        proof {
            assert(all.take(i + 1).drop_last() =~= all.take(i as int));
            assert(all.take(i + 1).last() == all[i as int]);
        }
        text = replace(text.as_slice(), pattern.as_slice(), digits.as_slice());
        i = i + 1;
    }
    proof {
        assert(all.take(all.len() as int) =~= all);
        lemma_linked_valid(start, all);
        lemma_linked_resolves(start, all);
    }
    Bytecode { text }
}


} // verus!
