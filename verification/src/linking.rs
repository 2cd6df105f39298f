//! What holds of linking, proved of the texts that code can be.

use crate::bytecode::{
    any_occurs, has_placeholder, linked, linked_one, occurs, placeholder, placeholders, replaced, resolvable,
    starts_placeholder, valid, well_formed, within, MARK, PLACEHOLDER_LEN,
};
use crate::hex;
use crate::types::Address;
use vstd::prelude::*;

verus! {

/// Hexadecimal digits in front of a text neither make nor break it.
pub proof fn lemma_digits_in_front(digits: Seq<u8>, text: Seq<u8>, pattern: Seq<u8>, with: Seq<u8>)
    requires
        hex::all_hex(digits),
    ensures
        well_formed(digits + text) == well_formed(text),
        has_placeholder(digits + text) == has_placeholder(text),
        occurs(digits + text, pattern) == occurs(text, pattern),
        replaced(digits + text, pattern, with) == digits + replaced(text, pattern, with),
    decreases digits.len(),
{
    let whole = digits + text;
    if digits.len() == 0 {
        assert(whole =~= text);
        assert(digits + replaced(text, pattern, with) =~= replaced(text, pattern, with));
    } else {
        assert(whole[0] == digits[0]);
        assert(hex::is_hex_digit(digits[0]));
        assert(!starts_placeholder(whole));
        assert(whole.skip(1) =~= digits.skip(1) + text);
        lemma_digits_in_front(digits.skip(1), text, pattern, with);
        assert(seq![whole[0]] + (digits.skip(1) + replaced(text, pattern, with)) =~= digits + replaced(
            text,
            pattern,
            with,
        ));
    }
}

/// Writing forty bytes over placeholders keeps the length of a text.
pub proof fn lemma_replaced_len(text: Seq<u8>, pattern: Seq<u8>, with: Seq<u8>)
    requires
        with.len() == PLACEHOLDER_LEN,
    ensures
        replaced(text, pattern, with).len() == text.len(),
    decreases text.len(),
{
    if text.len() == 0 {
    } else if starts_placeholder(text) {
        lemma_replaced_len(text.skip(PLACEHOLDER_LEN as int), pattern, with);
    } else {
        lemma_replaced_len(text.skip(1), pattern, with);
    }
}

/// Writing forty hexadecimal digits over placeholders keeps a text well
/// formed, and valid where it was.
pub proof fn lemma_replaced_well_formed(text: Seq<u8>, pattern: Seq<u8>, with: Seq<u8>)
    requires
        well_formed(text),
        with.len() == PLACEHOLDER_LEN,
        hex::all_hex(with),
    ensures
        well_formed(replaced(text, pattern, with)),
        valid(text) ==> valid(replaced(text, pattern, with)),
    decreases text.len(),
{
    lemma_replaced_len(text, pattern, with);
    if text.len() == 0 {
    } else if starts_placeholder(text) {
        let block = text.take(PLACEHOLDER_LEN as int);
        let rest = replaced(text.skip(PLACEHOLDER_LEN as int), pattern, with);
        lemma_replaced_well_formed(text.skip(PLACEHOLDER_LEN as int), pattern, with);
        if block == pattern {
            lemma_digits_in_front(with, rest, pattern, with);
        } else {
            let whole = block + rest;
            assert(whole[0] == text[0] && whole[1] == text[1]);
            assert(starts_placeholder(whole));
            assert(whole.skip(PLACEHOLDER_LEN as int) =~= rest);
        }
    } else {
        let rest = replaced(text.skip(1), pattern, with);
        lemma_replaced_well_formed(text.skip(1), pattern, with);
        let whole = seq![text[0]] + rest;
        assert(whole[0] == text[0]);
        assert(!starts_placeholder(whole));
        assert(whole.skip(1) =~= rest);
    }
}

/// Linking a library in leaves none of its placeholders behind.
pub proof fn lemma_replaced_everywhere(text: Seq<u8>, pattern: Seq<u8>, with: Seq<u8>)
    requires
        well_formed(text),
        with.len() == PLACEHOLDER_LEN,
        hex::all_hex(with),
    ensures
        !occurs(replaced(text, pattern, with), pattern),
    decreases text.len(),
{
    if text.len() == 0 {
    } else if starts_placeholder(text) {
        let block = text.take(PLACEHOLDER_LEN as int);
        let rest = replaced(text.skip(PLACEHOLDER_LEN as int), pattern, with);
        lemma_replaced_everywhere(text.skip(PLACEHOLDER_LEN as int), pattern, with);
        if block == pattern {
            lemma_digits_in_front(with, rest, pattern, with);
        } else {
            let whole = block + rest;
            assert(whole[0] == text[0] && whole[1] == text[1]);
            assert(starts_placeholder(whole));
            assert(whole.take(PLACEHOLDER_LEN as int) =~= block);
            assert(whole.skip(PLACEHOLDER_LEN as int) =~= rest);
        }
    } else {
        let rest = replaced(text.skip(1), pattern, with);
        lemma_replaced_everywhere(text.skip(1), pattern, with);
        let whole = seq![text[0]] + rest;
        assert(whole[0] == text[0]);
        assert(!starts_placeholder(whole));
        assert(whole.skip(1) =~= rest);
    }
}

/// Where a pattern is none of the placeholders of a text, writing over it
/// changes nothing.
pub proof fn lemma_replaced_absent(text: Seq<u8>, pattern: Seq<u8>, with: Seq<u8>)
    requires
        !occurs(text, pattern),
    ensures
        replaced(text, pattern, with) == text,
    decreases text.len(),
{
    if text.len() == 0 {
    } else if starts_placeholder(text) {
        lemma_replaced_absent(text.skip(PLACEHOLDER_LEN as int), pattern, with);
        assert(text.take(PLACEHOLDER_LEN as int) + text.skip(PLACEHOLDER_LEN as int) =~= text);
    } else {
        lemma_replaced_absent(text.skip(1), pattern, with);
        assert(seq![text[0]] + text.skip(1) =~= text);
    }
}

/// A well-formed text is all hexadecimal digits exactly where it holds no
/// placeholder.
pub proof fn lemma_digits_or_placeholder(text: Seq<u8>)
    requires
        well_formed(text),
    ensures
        hex::all_hex(text) <==> !has_placeholder(text),
    decreases text.len(),
{
    if text.len() == 0 {
    } else if starts_placeholder(text) {
        assert(!hex::is_hex_digit(text[0]));
    } else {
        let rest = text.skip(1);
        lemma_digits_or_placeholder(rest);
        if hex::all_hex(text) {
            assert forall|i: int| 0 <= i < rest.len() implies hex::is_hex_digit(#[trigger] rest[i]) by {
                assert(rest[i] == text[i + 1]);
            }
        }
        if hex::all_hex(rest) {
            assert forall|i: int| 0 <= i < text.len() implies hex::is_hex_digit(#[trigger] text[i]) by {
                if i > 0 {
                    assert(text[i] == rest[i - 1]);
                }
            }
        }
    }
}

/// The address of a library in hexadecimal is forty digits.
pub proof fn lemma_address_digits(address: Address)
    ensures
        hex::encoded(address@).len() == PLACEHOLDER_LEN,
        hex::all_hex(hex::encoded(address@)),
{
    hex::lemma_decode_encode(address@);
}

/// Linking keeps a text well formed, valid where it was, and of its length.
pub proof fn lemma_linked_valid(text: Seq<u8>, libraries: Seq<(Seq<char>, Address)>)
    requires
        well_formed(text),
    ensures
        well_formed(linked(text, libraries)),
        linked(text, libraries).len() == text.len(),
        valid(text) ==> valid(linked(text, libraries)),
    decreases libraries.len(),
{
    if libraries.len() > 0 {
        let before = linked(text, libraries.drop_last());
        let name = vstd::utf8::encode_utf8(libraries.last().0);
        let digits = hex::encoded(libraries.last().1@);
        lemma_linked_valid(text, libraries.drop_last());
        lemma_address_digits(libraries.last().1);
        lemma_replaced_well_formed(before, placeholder(name), digits);
        lemma_replaced_len(before, placeholder(name), digits);
    }
}

/// A text without placeholders holds none of any name.
pub proof fn lemma_nothing_occurs(text: Seq<u8>, pattern: Seq<u8>)
    requires
        !has_placeholder(text),
    ensures
        !occurs(text, pattern),
    decreases text.len(),
{
    if text.len() > 0 {
        lemma_nothing_occurs(text.skip(1), pattern);
    }
}

/// Writing hexadecimal digits over the placeholders of one name makes no
/// placeholder of another: what is there afterwards was there before.
pub proof fn lemma_replaced_makes_none(text: Seq<u8>, pattern: Seq<u8>, with: Seq<u8>, other: Seq<u8>)
    requires
        well_formed(text),
        with.len() == PLACEHOLDER_LEN,
        hex::all_hex(with),
    ensures
        occurs(replaced(text, pattern, with), other) ==> occurs(text, other),
        other != pattern ==> (occurs(replaced(text, pattern, with), other) <==> occurs(text, other)),
    decreases text.len(),
{
    if text.len() == 0 {
    } else if starts_placeholder(text) {
        let block = text.take(PLACEHOLDER_LEN as int);
        let rest = replaced(text.skip(PLACEHOLDER_LEN as int), pattern, with);
        lemma_replaced_makes_none(text.skip(PLACEHOLDER_LEN as int), pattern, with, other);
        if block == pattern {
            lemma_digits_in_front(with, rest, other, with);
        } else {
            let whole = block + rest;
            assert(whole[0] == text[0] && whole[1] == text[1]);
            assert(starts_placeholder(whole));
            assert(whole.take(PLACEHOLDER_LEN as int) =~= block);
            assert(whole.skip(PLACEHOLDER_LEN as int) =~= rest);
        }
    } else {
        let rest = replaced(text.skip(1), pattern, with);
        lemma_replaced_makes_none(text.skip(1), pattern, with, other);
        let whole = seq![text[0]] + rest;
        assert(whole[0] == text[0]);
        assert(!starts_placeholder(whole));
        assert(whole.skip(1) =~= rest);
    }
}

/// Writing over the placeholders of two different names comes to the same in
/// either order.
pub proof fn lemma_replaced_commutes(
    text: Seq<u8>,
    pattern: Seq<u8>,
    with: Seq<u8>,
    other: Seq<u8>,
    other_with: Seq<u8>,
)
    requires
        well_formed(text),
        pattern != other,
        with.len() == PLACEHOLDER_LEN,
        hex::all_hex(with),
        other_with.len() == PLACEHOLDER_LEN,
        hex::all_hex(other_with),
    ensures
        replaced(replaced(text, pattern, with), other, other_with) == replaced(
            replaced(text, other, other_with),
            pattern,
            with,
        ),
    decreases text.len(),
{
    let one = replaced(text, pattern, with);
    let two = replaced(text, other, other_with);
    if text.len() == 0 {
    } else if starts_placeholder(text) {
        let block = text.take(PLACEHOLDER_LEN as int);
        let tail = text.skip(PLACEHOLDER_LEN as int);
        let one_tail = replaced(tail, pattern, with);
        let two_tail = replaced(tail, other, other_with);
        lemma_replaced_commutes(tail, pattern, with, other, other_with);
        if block == pattern {
            lemma_digits_in_front(with, one_tail, other, other_with);
            lemma_block_in_front(block, two_tail, pattern, with);
        } else if block == other {
            lemma_block_in_front(block, one_tail, other, other_with);
            lemma_digits_in_front(other_with, two_tail, pattern, with);
        } else {
            lemma_block_in_front(block, one_tail, other, other_with);
            lemma_block_in_front(block, two_tail, pattern, with);
        }
    } else {
        let tail = text.skip(1);
        let digit = seq![text[0]];
        lemma_replaced_commutes(tail, pattern, with, other, other_with);
        assert(hex::all_hex(digit));
        lemma_digits_in_front(digit, replaced(tail, pattern, with), other, other_with);
        lemma_digits_in_front(digit, replaced(tail, other, other_with), pattern, with);
    }
}

/// A placeholder in front of a text is read as one.
proof fn lemma_block_in_front(block: Seq<u8>, text: Seq<u8>, pattern: Seq<u8>, with: Seq<u8>)
    requires
        starts_placeholder(block),
        block.len() == PLACEHOLDER_LEN,
    ensures
        replaced(block + text, pattern, with) == (if block == pattern {
            with
        } else {
            block
        }) + replaced(text, pattern, with),
{
    let whole = block + text;
    assert(whole[0] == block[0] && whole[1] == block[1]);
    assert(starts_placeholder(whole));
    assert(whole.take(PLACEHOLDER_LEN as int) =~= block);
    assert(whole.skip(PLACEHOLDER_LEN as int) =~= text);
}

/// Linking one library in leaves none of its placeholders behind.
pub proof fn lemma_linked_one_everywhere(text: Seq<u8>, name: Seq<char>, address: Address)
    requires
        well_formed(text),
    ensures
        !occurs(linked_one(text, name, address), placeholder(vstd::utf8::encode_utf8(name))),
{
    lemma_address_digits(address);
    lemma_replaced_everywhere(text, placeholder(vstd::utf8::encode_utf8(name)), hex::encoded(address@));
}

/// Linking two libraries with different placeholders comes to the same in
/// either order.
pub proof fn lemma_linked_one_commutes(
    text: Seq<u8>,
    name: Seq<char>,
    address: Address,
    other: Seq<char>,
    other_address: Address,
)
    requires
        well_formed(text),
        placeholder(vstd::utf8::encode_utf8(name)) != placeholder(vstd::utf8::encode_utf8(other)),
    ensures
        linked_one(linked_one(text, name, address), other, other_address) == linked_one(
            linked_one(text, other, other_address),
            name,
            address,
        ),
{
    lemma_address_digits(address);
    lemma_address_digits(other_address);
    lemma_replaced_commutes(
        text,
        placeholder(vstd::utf8::encode_utf8(name)),
        hex::encoded(address@),
        placeholder(vstd::utf8::encode_utf8(other)),
        hex::encoded(other_address@),
    );
}

/// Linking changes nothing in a text that holds no placeholder of any of the
/// libraries.
pub proof fn lemma_linked_unmatched(text: Seq<u8>, libraries: Seq<(Seq<char>, Address)>)
    requires
        !any_occurs(text, libraries),
    ensures
        linked(text, libraries) == text,
    decreases libraries.len(),
{
    if libraries.len() > 0 {
        let front = libraries.drop_last();
        assert forall|i: int| 0 <= i < front.len() implies !occurs(
            text,
            placeholder(vstd::utf8::encode_utf8((#[trigger] front[i]).0)),
        ) by {
            assert(front[i] == libraries[i]);
        }
        lemma_linked_unmatched(text, front);
        let last = libraries[libraries.len() - 1];
        lemma_replaced_absent(text, placeholder(vstd::utf8::encode_utf8(last.0)), hex::encoded(last.1@));
    }
}

/// Linking changes nothing in a text without placeholders.
pub proof fn lemma_linked_plain(text: Seq<u8>, libraries: Seq<(Seq<char>, Address)>)
    requires
        !has_placeholder(text),
    ensures
        linked(text, libraries) == text,
{
    assert forall|i: int| 0 <= i < libraries.len() implies !occurs(
        text,
        placeholder(vstd::utf8::encode_utf8((#[trigger] libraries[i]).0)),
    ) by {
        lemma_nothing_occurs(text, placeholder(vstd::utf8::encode_utf8(libraries[i].0)));
    }
    lemma_linked_unmatched(text, libraries);
}

/// Linking leaves no placeholder of any of the libraries behind.
pub proof fn lemma_linked_everywhere(text: Seq<u8>, libraries: Seq<(Seq<char>, Address)>)
    requires
        well_formed(text),
    ensures
        !any_occurs(linked(text, libraries), libraries),
    decreases libraries.len(),
{
    if libraries.len() > 0 {
        let front = libraries.drop_last();
        let last = libraries[libraries.len() - 1];
        let before = linked(text, front);
        let pattern = placeholder(vstd::utf8::encode_utf8(last.0));
        let digits = hex::encoded(last.1@);
        lemma_linked_everywhere(text, front);
        lemma_linked_valid(text, front);
        lemma_address_digits(last.1);
        lemma_replaced_everywhere(before, pattern, digits);
        assert forall|i: int| 0 <= i < libraries.len() implies !occurs(
            linked(text, libraries),
            placeholder(vstd::utf8::encode_utf8((#[trigger] libraries[i]).0)),
        ) by {
            let other = placeholder(vstd::utf8::encode_utf8(libraries[i].0));
            if i < front.len() {
                assert(front[i] == libraries[i]);
                lemma_replaced_makes_none(before, pattern, digits, other);
            }
        }
    }
}

/// Linking is idempotent: linking the same libraries in once more changes
/// nothing.
pub proof fn lemma_linked_idempotent(text: Seq<u8>, libraries: Seq<(Seq<char>, Address)>)
    requires
        well_formed(text),
    ensures
        linked(linked(text, libraries), libraries) == linked(text, libraries),
{
    lemma_linked_everywhere(text, libraries);
    lemma_linked_unmatched(linked(text, libraries), libraries);
}

/// Linking is deterministic: the same code and the same libraries give the
/// same linked code.
pub proof fn lemma_linked_deterministic(
    text: Seq<u8>,
    libraries: Seq<(Seq<char>, Address)>,
    again: Seq<u8>,
    again_libraries: Seq<(Seq<char>, Address)>,
)
    requires
        text == again,
        libraries == again_libraries,
    ensures
        linked(text, libraries) == linked(again, again_libraries),
{
}

proof fn lemma_digits_in_front_within(digits: Seq<u8>, text: Seq<u8>, allowed: Set<Seq<u8>>)
    requires
        hex::all_hex(digits),
    ensures
        within(digits + text, allowed) == within(text, allowed),
    decreases digits.len(),
{
    let whole = digits + text;
    if digits.len() == 0 {
        assert(whole =~= text);
    } else {
        assert(whole[0] == digits[0]);
        assert(hex::is_hex_digit(digits[0]));
        assert(!starts_placeholder(whole));
        assert(whole.skip(1) =~= digits.skip(1) + text);
        lemma_digits_in_front_within(digits.skip(1), text, allowed);
    }
}

proof fn lemma_within_none(text: Seq<u8>)
    ensures
        within(text, Set::empty()) <==> !has_placeholder(text),
    decreases text.len(),
{
    if text.len() > 0 && !starts_placeholder(text) {
        lemma_within_none(text.skip(1));
    }
}

proof fn lemma_replaced_within(text: Seq<u8>, pattern: Seq<u8>, with: Seq<u8>, allowed: Set<Seq<u8>>)
    requires
        well_formed(text),
        with.len() == PLACEHOLDER_LEN,
        hex::all_hex(with),
    ensures
        within(replaced(text, pattern, with), allowed) <==> within(text, allowed.insert(pattern)),
    decreases text.len(),
{
    if text.len() == 0 {
    } else if starts_placeholder(text) {
        let block = text.take(PLACEHOLDER_LEN as int);
        let rest = replaced(text.skip(PLACEHOLDER_LEN as int), pattern, with);
        lemma_replaced_within(text.skip(PLACEHOLDER_LEN as int), pattern, with, allowed);
        if block == pattern {
            lemma_digits_in_front_within(with, rest, allowed);
        } else {
            let whole = block + rest;
            assert(whole[0] == text[0] && whole[1] == text[1]);
            assert(starts_placeholder(whole));
            assert(whole.take(PLACEHOLDER_LEN as int) =~= block);
            assert(whole.skip(PLACEHOLDER_LEN as int) =~= rest);
        }
    } else {
        let rest = replaced(text.skip(1), pattern, with);
        lemma_replaced_within(text.skip(1), pattern, with, allowed);
        let whole = seq![text[0]] + rest;
        assert(whole[0] == text[0]);
        assert(!starts_placeholder(whole));
        assert(whole.skip(1) =~= rest);
    }
}

proof fn lemma_linked_within(text: Seq<u8>, libraries: Seq<(Seq<char>, Address)>, allowed: Set<Seq<u8>>)
    requires
        well_formed(text),
    ensures
        within(linked(text, libraries), allowed) <==> within(text, allowed + placeholders(libraries)),
    decreases libraries.len(),
{
    if libraries.len() == 0 {
        assert(allowed + placeholders(libraries) =~= allowed);
    } else {
        let front = libraries.drop_last();
        let last = libraries[libraries.len() - 1];
        let pattern = placeholder(vstd::utf8::encode_utf8(last.0));
        lemma_linked_valid(text, front);
        lemma_address_digits(last.1);
        lemma_replaced_within(linked(text, front), pattern, hex::encoded(last.1@), allowed);
        lemma_linked_within(text, front, allowed.insert(pattern));
        assert forall|p: Seq<u8>| placeholders(libraries).contains(p) implies (placeholders(front).contains(p) || p
            == pattern) by {
            let i = choose|i: int|
                0 <= i < libraries.len() && placeholder(vstd::utf8::encode_utf8((#[trigger] libraries[i]).0)) == p;
            if i < front.len() {
                assert(front[i] == libraries[i]);
            }
        }
        assert forall|p: Seq<u8>| placeholders(front).contains(p) implies placeholders(libraries).contains(p) by {
            let i = choose|i: int|
                0 <= i < front.len() && placeholder(vstd::utf8::encode_utf8((#[trigger] front[i]).0)) == p;
            assert(libraries[i] == front[i]);
        }
        assert(placeholders(libraries).contains(pattern)) by {
            assert(libraries[libraries.len() - 1] == last);
        }
        assert(allowed.insert(pattern) + placeholders(front) =~= allowed + placeholders(libraries));
    }
}

/// Linking leaves no placeholder behind exactly where there is a library for
/// every placeholder of the code.
pub proof fn lemma_linked_resolves(text: Seq<u8>, libraries: Seq<(Seq<char>, Address)>)
    requires
        well_formed(text),
    ensures
        !has_placeholder(linked(text, libraries)) <==> resolvable(text, libraries),
{
    lemma_within_none(linked(text, libraries));
    lemma_linked_within(text, libraries, Set::empty());
    assert(Set::<Seq<u8>>::empty() + placeholders(libraries) =~= placeholders(libraries));
}

/// Text of hexadecimal digits alone holds no placeholder at any place,
/// wherever reading begins.
pub proof fn lemma_digits_hold_no_placeholder(text: Seq<u8>, name: Seq<u8>, at: int)
    requires
        hex::all_hex(text),
        0 <= at,
        at + PLACEHOLDER_LEN <= text.len(),
    ensures
        text.subrange(at, at + PLACEHOLDER_LEN) != placeholder(name),
{
    assert(text.subrange(at, at + PLACEHOLDER_LEN)[0] == text[at]);
    assert(placeholder(name)[0] == MARK);
}

} // verus!
