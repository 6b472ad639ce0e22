//! Property accessor: what the selection reads out of a window's properties.
//!
//! A property arrives as the format, the type atom and the raw bytes of a
//! `GetProperty` reply. This module decodes the three properties that the
//! selection knows: the class pair, the id of the owning process and the
//! window name.

use vstd::prelude::*;
use vstd::string::StringExecFns;
use vstd::utf8::{decode_utf8, valid_utf8};
use x11rb::properties::WmClass;
use x11rb::protocol::xproto::GetPropertyReply;

verus! {

/// The predefined atom of the type `STRING`.
pub const ATOM_STRING: u32 = 31;

/// A fetched property: the fields of the reply that the selection reads.
#[derive(Clone, Debug)]
pub struct PropertyValue {
    /// The width of one item in bits: 8, 16 or 32, and 0 for a property that
    /// the window does not have.
    pub format: u8,
    /// The atom of the property's type.
    pub type_: u32,
    /// The bytes of the value.
    pub value: Vec<u8>,
}

/// The mathematical content of a [`PropertyValue`].
pub struct PropertyView {
    pub format: u8,
    pub type_: u32,
    pub value: Seq<u8>,
}

impl View for PropertyValue {
    type V = PropertyView;

    open spec fn view(&self) -> PropertyView {
        PropertyView { format: self.format, type_: self.type_, value: self.value@ }
    }
}

/// A property held bytes that are no UTF-8 text.
#[derive(Clone, Copy, Debug, PartialEq, Eq, Structural)]
pub struct DecodeError {}

/// The two byte strings of a class property.
#[derive(Clone, Debug)]
pub struct ClassParts {
    pub instance: Vec<u8>,
    pub class: Vec<u8>,
}

/// The position of the first zero byte of `value`, or its length if it
/// holds none.
pub open spec fn first_nul(value: Seq<u8>) -> int
    decreases value.len(),
{
    if value.len() == 0 || value[0] == 0 {
        0
    } else {
        1 + first_nul(value.skip(1))
    }
}

/// The instance of a class property: the bytes before the first zero byte.
pub open spec fn instance_bytes(value: Seq<u8>) -> Seq<u8> {
    value.take(first_nul(value))
}

/// The class of a class property: the bytes after the first zero byte,
/// without one zero byte at the very end.
pub open spec fn class_bytes(value: Seq<u8>) -> Seq<u8> {
    let start = first_nul(value) + 1;
    if start >= value.len() {
        Seq::empty()
    } else if value.last() == 0 {
        value.subrange(start, value.len() - 1)
    } else {
        value.skip(start)
    }
}

/// Whether a property has the shape of a class property: 8-bit items of
/// type `STRING`.
pub open spec fn is_class_shaped(prop: PropertyView) -> bool {
    prop.type_ == ATOM_STRING && prop.format == 8
}

/// The `i`-th 32-bit item of `value`, least significant byte first.
pub open spec fn word_le(value: Seq<u8>, i: int) -> int {
    value[4 * i] + 0x100 * value[4 * i + 1] + 0x1_0000 * value[4 * i + 2] + 0x100_0000 * value[4
        * i + 3]
}

/// The `i`-th 32-bit item of `value`, most significant byte first.
pub open spec fn word_be(value: Seq<u8>, i: int) -> int {
    value[4 * i + 3] + 0x100 * value[4 * i + 2] + 0x1_0000 * value[4 * i + 1] + 0x100_0000
        * value[4 * i]
}

/// Whether `words` are the whole 32-bit items of `value`, all read in one
/// byte order.
pub open spec fn are_words_of(words: Seq<u32>, value: Seq<u8>) -> bool {
    &&& words.len() == value.len() / 4
    &&& {
        ||| forall|i: int| 0 <= i < words.len() ==> #[trigger] words[i] == word_le(value, i)
        ||| forall|i: int| 0 <= i < words.len() ==> #[trigger] words[i] == word_be(value, i)
    }
}

/// The error of `x11rb`'s parsers, carried through and never looked into.
#[verifier::external_type_specification]
#[verifier::external_body]
pub struct ExParseError(x11rb::errors::ParseError);

/// The error of `String::from_utf8`, carried through and never looked into.
#[verifier::external_type_specification]
#[verifier::external_body]
pub struct ExFromUtf8Error(std::string::FromUtf8Error);

/// Splits a class property with `x11rb::properties::WmClass`: `from_reply`,
/// then `instance` and `class`.
///
/// Trusted: the split fails exactly for a property that is not of type
/// `STRING` with 8-bit items; otherwise the instance is what stands before
/// the first zero byte and the class what follows it, less one closing zero
/// byte.
#[verifier::external_body]
fn split_class(prop: &PropertyValue) -> (parts: Result<ClassParts, x11rb::errors::ParseError>)
    ensures
        parts.is_ok() == is_class_shaped(prop@),
        parts matches Ok(p) ==> p.instance@ == instance_bytes(prop.value@) && p.class@
            == class_bytes(prop.value@),
{
    let reply = GetPropertyReply {
        format: prop.format,
        sequence: 0,
        length: 0,
        type_: prop.type_,
        bytes_after: 0,
        value_len: 0,
        value: prop.value.clone(),
    };
    let class = WmClass::from_reply(reply)?;
    Ok(ClassParts { instance: class.instance().to_vec(), class: class.class().to_vec() })
}

/// Reads the 32-bit items of a property with
/// `x11rb::protocol::xproto::GetPropertyReply::value32`.
///
/// Trusted: there are items exactly for a property whose format is 32; they
/// are the whole groups of four bytes of the value, in the byte order of the
/// machine.
#[verifier::external_body]
fn words_of(prop: &PropertyValue) -> (words: Option<Vec<u32>>)
    ensures
        words.is_some() == (prop.format == 32),
        words matches Some(w) ==> are_words_of(w@, prop.value@),
{
    let reply = GetPropertyReply {
        format: prop.format,
        sequence: 0,
        length: 0,
        type_: prop.type_,
        bytes_after: 0,
        value_len: 0,
        value: prop.value.clone(),
    };
    reply.value32().map(|items| items.collect())
}

/// Decodes bytes as UTF-8 with `String::from_utf8`.
///
/// Trusted: the call succeeds exactly on valid UTF-8 and then gives the
/// characters that the bytes encode.
#[verifier::external_body]
fn text_from_utf8(bytes: Vec<u8>) -> (text: Result<String, std::string::FromUtf8Error>)
    ensures
        text.is_ok() == valid_utf8(bytes@),
        text matches Ok(s) ==> s@ == decode_utf8(bytes@),
{
    String::from_utf8(bytes)
}

/// The text that valid UTF-8 bytes encode; an error for any other bytes.
pub open spec fn text_of_bytes(bytes: Seq<u8>) -> Result<Seq<char>, DecodeError> {
    if valid_utf8(bytes) {
        Ok(decode_utf8(bytes))
    } else {
        Err(DecodeError {  })
    }
}

/// The text of a class property as the selection compares it: the class, a
/// dot, the instance. `None` for a property that is not class-shaped, an
/// error where the class or the instance is no UTF-8 text.
pub open spec fn class_text(prop: PropertyView) -> Result<Option<Seq<char>>, DecodeError> {
    if !is_class_shaped(prop) {
        Ok(None)
    } else {
        match (text_of_bytes(class_bytes(prop.value)), text_of_bytes(instance_bytes(prop.value))) {
            (Ok(class), Ok(instance)) => Ok(Some(class + seq!['.'] + instance)),
            _ => Err(DecodeError {  }),
        }
    }
}

/// The process id that 32-bit items stand for: the first item, and 0 where
/// there is none.
pub open spec fn pid_of_words(words: Option<Seq<u32>>) -> u32 {
    match words {
        Some(w) => if w.len() > 0 {
            w[0]
        } else {
            0
        },
        None => 0,
    }
}

/// Whether `pid` may be the owning process that a property names: the first
/// 32-bit item of the value in either byte order, and 0 for a property that
/// has no such item.
pub open spec fn is_owner_pid(pid: u32, prop: PropertyView) -> bool {
    if prop.format == 32 && prop.value.len() >= 4 {
        pid == word_le(prop.value, 0) || pid == word_be(prop.value, 0)
    } else {
        pid == 0
    }
}

/// Decodes the bytes of a text property.
pub fn decode_text(bytes: &Vec<u8>) -> (text: Result<String, DecodeError>)
    ensures
        match text {
            Ok(s) => text_of_bytes(bytes@) == Ok::<Seq<char>, DecodeError>(s@),
            Err(e) => text_of_bytes(bytes@) == Err::<Seq<char>, DecodeError>(e),
        },
{
    match text_from_utf8(bytes.clone()) {
        Ok(s) => Ok(s),
        Err(_) => Err(DecodeError {  }),
    }
}

/// Reads a class property as `class.instance`.
///
/// A property of another type or format is no class property and reads as
/// `None`. Bytes that are no UTF-8 text are an error.
pub fn class_instance(prop: &PropertyValue) -> (text: Result<Option<String>, DecodeError>)
    ensures
        match text {
            Ok(Some(s)) => class_text(prop@) == Ok::<Option<Seq<char>>, DecodeError>(Some(s@)),
            Ok(None) => class_text(prop@) == Ok::<Option<Seq<char>>, DecodeError>(None),
            Err(e) => class_text(prop@) == Err::<Option<Seq<char>>, DecodeError>(e),
        },
{
    match split_class(prop) {
        Err(_) => Ok(None),
        Ok(parts) => {
            let class = decode_text(&parts.class)?;
            let instance = decode_text(&parts.instance)?;
            proof {
                reveal_strlit(".");
            }
            assert("."@ =~= seq!['.']);
            Ok(Some(class.concat(".").concat(instance.as_str())))
        },
    }
}

/// The process id that the items of a property stand for.
pub fn first_word_or_zero(words: &Option<Vec<u32>>) -> (pid: u32)
    ensures
        pid == pid_of_words(
            match words {
                Some(w) => Some(w@),
                None => None,
            },
        ),
{
    match words {
        Some(w) => if w.len() > 0 {
            w[0]
        } else {
            0
        },
        None => 0,
    }
}

/// Reads the id of the owning process off its property, 0 where the window
/// does not name one.
pub fn owner_pid(prop: &PropertyValue) -> (pid: u32)
    ensures
        is_owner_pid(pid, prop@),
{
    let words = words_of(prop);
    first_word_or_zero(&words)
}

} // verus!
