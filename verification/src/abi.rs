//! Constructor signatures, the arguments given for them, and their encoding.
//!
//! The encoding itself is the work of the `ethabi` crate. This module holds
//! the signature and the arguments as plain values, decides whether the
//! encoder can take them, and hands them over.

use crate::types::{Address, U256};
use ethabi::{ParamType, Token};
use vstd::prelude::*;

verus! {

/// The type of one parameter.
#[derive(Debug, PartialEq, Eq)]
pub enum ParamKind {
    /// An address.
    Address,
    /// Bytes, of any number.
    Bytes,
    /// A signed integer of the given number of bits.
    Int(usize),
    /// An unsigned integer of the given number of bits.
    Uint(usize),
    /// A boolean.
    Bool,
    /// Text.
    String,
    /// An array of any length.
    Array(Box<ParamKind>),
    /// Bytes, of the given number.
    FixedBytes(usize),
    /// An array of the given length.
    FixedArray(Box<ParamKind>, usize),
}

/// One parameter of a signature.
#[derive(Debug, PartialEq, Eq)]
pub struct Param {
    pub name: String,
    pub kind: ParamKind,
}

/// The signature of a constructor.
#[derive(Debug, PartialEq, Eq)]
pub struct Constructor {
    pub inputs: Vec<Param>,
}

/// What an artifact says of a contract's interface, as far as acquiring a
/// handle needs it.
#[derive(Debug, PartialEq, Eq)]
pub struct Abi {
    pub constructor: Option<Constructor>,
}

/// One argument.
#[derive(Debug, PartialEq, Eq)]
pub enum Argument {
    /// An address.
    Address(Address),
    /// Bytes for a parameter of a fixed number of them.
    FixedBytes(Vec<u8>),
    /// Bytes for a parameter of any number of them.
    Bytes(Vec<u8>),
    /// A signed integer, in two's complement.
    Int(U256),
    /// An unsigned integer.
    Uint(U256),
    /// A boolean.
    Bool(bool),
    /// Text.
    String(String),
    /// The items of an array of fixed length.
    FixedArray(Vec<Argument>),
    /// The items of an array of any length.
    Array(Vec<Argument>),
}

/// The most words of 32 bytes that the encoder lays out: it counts bytes in
/// 32 bits.
pub const MAX_WORDS: usize = 0x07ff_ffff;

/// The words of 32 bytes that `len` bytes fill.
pub open spec fn words_for(len: nat) -> nat {
    len / 32 + if len % 32 == 0 {
        0nat
    } else {
        1nat
    }
}

/// A bound on the words that the encoding of `argument` takes, head and tail
/// together.
pub open spec fn argument_words(argument: Argument) -> nat
    decreases argument,
{
    match argument {
        Argument::Address(_) | Argument::Int(_) | Argument::Uint(_) | Argument::Bool(_) => 1,
        Argument::FixedBytes(bytes) => words_for(bytes@.len()),
        Argument::Bytes(bytes) => 2 + words_for(bytes@.len()),
        Argument::String(text) => 2 + words_for(vstd::utf8::encode_utf8(text@).len()),
        Argument::FixedArray(items) => 1 + arguments_words(items@),
        Argument::Array(items) => 2 + arguments_words(items@),
    }
}

/// A bound on the words that the encoding of `arguments` takes.
pub open spec fn arguments_words(arguments: Seq<Argument>) -> nat
    decreases arguments,
{
    if arguments.len() == 0 {
        0
    } else {
        arguments_words(arguments.drop_last()) + argument_words(arguments.last())
    }
}

/// The inputs of the constructor that `abi` declares; none where it declares
/// no constructor.
pub open spec fn constructor_inputs(abi: Abi) -> Seq<Param> {
    match abi.constructor {
        Some(constructor) => constructor.inputs@,
        None => Seq::empty(),
    }
}

/// What `ethabi::Constructor::encode_input` returns for a constructor with
/// `inputs`, no code, and `arguments`: the encoded arguments, or `None` where it
/// refuses them.
pub uninterp spec fn spec_encode_input(inputs: Seq<Param>, arguments: Seq<Argument>) -> Option<Seq<u8>>;

/// Whether `arguments` can be encoded as arguments for `inputs`: the encoder can
/// lay them out, and accepts them for the signature.
pub open spec fn encodable(inputs: Seq<Param>, arguments: Seq<Argument>) -> bool {
    arguments_words(arguments) <= MAX_WORDS && spec_encode_input(inputs, arguments) is Some
}

/// The error type of the `ethabi` crate. Nothing is known of a value of it.
#[verifier::external_type_specification]
#[verifier::external_body]
pub struct ExAbiError(ethabi::Error);

/// The parameter type of the `ethabi` crate.
#[verifier::external_type_specification]
#[verifier::external_body]
pub struct ExAbiParamType(ethabi::ParamType);

/// The token type of the `ethabi` crate: one argument, as the encoder takes it.
#[verifier::external_type_specification]
#[verifier::external_body]
pub struct ExAbiToken(ethabi::Token);

/// Writes `kind` as an `ethabi::ParamType`, variant for variant, for the
/// call in [`encode_input`].
#[verifier::external_body]
fn to_abi_param_type(kind: &ParamKind) -> ParamType {
    match kind {
        ParamKind::Address => ParamType::Address,
        ParamKind::Bytes => ParamType::Bytes,
        ParamKind::Int(bits) => ParamType::Int(*bits),
        ParamKind::Uint(bits) => ParamType::Uint(*bits),
        ParamKind::Bool => ParamType::Bool,
        ParamKind::String => ParamType::String,
        ParamKind::Array(item) => ParamType::Array(Box::new(to_abi_param_type(item))),
        ParamKind::FixedBytes(len) => ParamType::FixedBytes(*len),
        ParamKind::FixedArray(item, len) => ParamType::FixedArray(Box::new(to_abi_param_type(item)), *len),
    }
}

/// Writes `argument` as an `ethabi::Token`, variant for variant, for the
/// call in [`encode_input`]. A number goes over limb for limb.
#[verifier::external_body]
fn to_abi_token(argument: &Argument) -> Token {
    match argument {
        Argument::Address(address) => Token::Address(address.bytes.into()),
        Argument::FixedBytes(bytes) => Token::FixedBytes(bytes.clone()),
        Argument::Bytes(bytes) => Token::Bytes(bytes.clone()),
        Argument::Int(number) => Token::Int(ethabi::Int { 0: number.limbs }),
        Argument::Uint(number) => Token::Uint(ethabi::Uint { 0: number.limbs }),
        Argument::Bool(flag) => Token::Bool(*flag),
        Argument::String(text) => Token::String(text.clone()),
        Argument::FixedArray(items) => Token::FixedArray(to_abi_tokens(items)),
        Argument::Array(items) => Token::Array(to_abi_tokens(items)),
    }
}

/// Writes each of `arguments` as an `ethabi::Token`, in their order, for the
/// call in [`encode_input`].
#[verifier::external_body]
fn to_abi_tokens(arguments: &Vec<Argument>) -> Vec<Token> {
    arguments.iter().map(to_abi_token).collect()
}

/// Calls `ethabi::Constructor::encode_input` on a constructor with `inputs`,
/// with no code and with `arguments`. Trusted: the result is the one named
/// [`spec_encode_input`], and arguments that differ in number from the inputs
/// are refused. The words of the arguments are bounded because the encoder adds
/// up bytes in 32 bits.
#[verifier::external_body]
fn encode_input(inputs: &Vec<Param>, arguments: &Vec<Argument>) -> (res: Result<Vec<u8>, ethabi::Error>)
    requires
        arguments_words(arguments@) <= MAX_WORDS,
    ensures
        res is Ok <==> spec_encode_input(inputs@, arguments@) is Some,
        res matches Ok(data) ==> spec_encode_input(inputs@, arguments@) == Some(data@),
        inputs@.len() != arguments@.len() ==> res is Err,
{
    let inputs = inputs.iter().map(
        |p| ethabi::Param { name: p.name.clone(), kind: to_abi_param_type(&p.kind) },
    ).collect();
    ethabi::Constructor { inputs }.encode_input(Vec::new(), &to_abi_tokens(arguments))
}

/// Makes the error with which `ethabi` refuses data: `ErrorKind::InvalidData`.
#[verifier::external_body]
fn invalid_data() -> ethabi::Error {
    ethabi::ErrorKind::InvalidData.into()
}

fn byte_words(len: usize) -> (res: usize)
    ensures
        res == words_for(len as nat),
        res <= len,
{
    if len % 32 == 0 {
        len / 32
    } else {
        len / 32 + 1
    }
}

/// `base` and `more` together, where that stays within `budget`.
fn within(base: usize, more: usize, budget: usize) -> (res: Option<usize>)
    ensures
        res == if base + more <= budget {
            Some((base + more) as usize)
        } else {
            None
        },
{
    if base <= budget && more <= budget - base {
        Some(base + more)
    } else {
        None
    }
}

impl Argument {
    /// Counts the words of this argument, up to `budget` of them.
    pub fn words(&self, budget: usize) -> (res: Option<usize>)
        ensures
            res == if argument_words(*self) <= budget {
                Some(argument_words(*self) as usize)
            } else {
                None
            },
        decreases *self,
    {
        match self {
            Argument::Address(_) | Argument::Int(_) | Argument::Uint(_) | Argument::Bool(_) => within(1, 0, budget),
            Argument::FixedBytes(bytes) => within(0, byte_words(bytes.len()), budget),
            Argument::Bytes(bytes) => within(2, byte_words(bytes.len()), budget),
            Argument::String(text) => within(2, byte_words(text.as_str().as_bytes().len()), budget),
            Argument::FixedArray(items) => match count_words(items, budget) {
                Some(n) => within(1, n, budget),
                None => None,
            },
            Argument::Array(items) => match count_words(items, budget) {
                Some(n) => within(2, n, budget),
                None => None,
            },
        }
    }
}

/// Counts the words of `arguments`, up to `budget` of them: `None` where they
/// take more.
pub fn count_words(arguments: &Vec<Argument>, budget: usize) -> (res: Option<usize>)
    ensures
        res == if arguments_words(arguments@) <= budget {
            Some(arguments_words(arguments@) as usize)
        } else {
            None
        },
    decreases *arguments,
{
    let mut total: usize = 0;
    let mut i: usize = 0;
    while i < arguments.len()
        invariant
            i <= arguments.len(),
            total == arguments_words(arguments@.take(i as int)),
            total <= budget,
        decreases arguments.len() - i,
    {
        proof {
            assert(arguments@.take(i + 1).drop_last() =~= arguments@.take(i as int));
            assert(arguments@.take(i + 1).last() == arguments@[i as int]);
            lemma_words_grow(arguments@, i + 1);
        }
        let next = match arguments[i].words(budget) {
            Some(n) => within(total, n, budget),
            None => None,
        };
        match next {
            Some(n) => {
                total = n;
            },
            None => {
                return None;
            },
        }
        i = i + 1;
    }
    assert(arguments@.take(arguments@.len() as int) =~= arguments@);
    Some(total)
}

/// The words of a longer run of arguments are no fewer than those of a shorter.
pub proof fn lemma_words_grow(arguments: Seq<Argument>, n: int)
    requires
        0 <= n <= arguments.len(),
    ensures
        arguments_words(arguments.take(n)) <= arguments_words(arguments),
    decreases arguments.len(),
{
    if n < arguments.len() {
        assert(arguments.drop_last().take(n) =~= arguments.take(n));
        lemma_words_grow(arguments.drop_last(), n);
    } else {
        assert(arguments.take(n) =~= arguments);
    }
}

/// Encodes `arguments` as the arguments of the constructor that `abi` declares;
/// an interface without a constructor takes no arguments. Fails where the
/// arguments are too many for the encoder or where it refuses them for the
/// signature, as it does whenever their number is not that of the inputs.
pub fn encode_constructor_call(abi: &Abi, arguments: &Vec<Argument>) -> (res: Result<Vec<u8>, ethabi::Error>)
    ensures
        res is Ok <==> encodable(constructor_inputs(*abi), arguments@),
        res matches Ok(data) ==> spec_encode_input(constructor_inputs(*abi), arguments@) == Some(data@),
        constructor_inputs(*abi).len() != arguments@.len() ==> res is Err,
{
    if count_words(arguments, MAX_WORDS).is_none() {
        return Err(invalid_data());
    }
    match &abi.constructor {
        Some(constructor) => encode_input(&constructor.inputs, arguments),
        None => {
            let inputs: Vec<Param> = Vec::new();
            encode_input(&inputs, arguments)
        },
    }
}

} // verus!
