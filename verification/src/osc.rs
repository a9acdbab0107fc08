//! OSC packets for VRChat's chatbox.

use vstd::prelude::*;
use vstd::utf8::encode_utf8;

verus! {

/// An OSC argument of the kinds the chatbox uses.
#[derive(Clone, Debug)]
pub enum OscArg {
    Str(String),
    Bool(bool),
}

/// Mathematical view of an [`OscArg`].
pub enum OscArgView {
    Str(Seq<char>),
    Bool(bool),
}

impl View for OscArg {
    type V = OscArgView;

    open spec fn view(&self) -> OscArgView {
        match self {
            OscArg::Str(s) => OscArgView::Str(s@),
            OscArg::Bool(b) => OscArgView::Bool(*b),
        }
    }
}

/// `n` rounded up to a multiple of four.
pub open spec fn pad4(n: int) -> int {
    if n % 4 == 0 {
        n
    } else {
        n + (4 - n % 4)
    }
}

/// Bytes followed by one to four zero bytes, up to a multiple of four: how
/// OSC writes strings.
pub open spec fn osc_padded(bytes: Seq<u8>) -> Seq<u8> {
    bytes + Seq::new((pad4(bytes.len() + 1int) - bytes.len()) as nat, |i: int| 0u8)
}

/// Type tag of an argument: `s` for a string, `T` or `F` for a boolean.
pub open spec fn osc_type_tag(a: OscArgView) -> u8 {
    match a {
        OscArgView::Str(_) => 0x73u8,
        OscArgView::Bool(b) => if b {
            0x54u8
        } else {
            0x46u8
        },
    }
}

/// Data of an argument: a string's UTF-8 bytes, padded; nothing for a
/// boolean.
pub open spec fn osc_arg_data(a: OscArgView) -> Seq<u8> {
    match a {
        OscArgView::Str(s) => osc_padded(encode_utf8(s)),
        OscArgView::Bool(_) => Seq::empty(),
    }
}

/// Data of all arguments, in order.
pub open spec fn osc_args_data(args: Seq<OscArgView>) -> Seq<u8>
    decreases args.len(),
{
    if args.len() == 0 {
        Seq::empty()
    } else {
        osc_args_data(args.drop_last()) + osc_arg_data(args.last())
    }
}

/// An OSC 1.0 message: the padded address, the padded type tag string
/// (a comma, then one tag per argument), then the arguments' data.
pub open spec fn osc_message_bytes(addr: Seq<char>, args: Seq<OscArgView>) -> Seq<u8> {
    osc_padded(encode_utf8(addr)) + osc_padded(
        seq![0x2cu8] + args.map_values(|a: OscArgView| osc_type_tag(a)),
    ) + osc_args_data(args)
}

/// A padded OSC string has a length that is a multiple of four.
pub proof fn lemma_padded_aligned(bytes: Seq<u8>)
    ensures
        osc_padded(bytes).len() % 4 == 0,
        osc_padded(bytes).len() > bytes.len(),
{
    let n = bytes.len() + 1int;
    assert(pad4(n) % 4 == 0) by {
        if n % 4 != 0 {
            assert((n + (4 - n % 4)) % 4 == 0);
        }
    }
}

/// The data of any arguments has a length that is a multiple of four.
pub proof fn lemma_args_data_aligned(args: Seq<OscArgView>)
    ensures
        osc_args_data(args).len() % 4 == 0,
    decreases args.len(),
{
    if args.len() > 0 {
        lemma_args_data_aligned(args.drop_last());
        match args.last() {
            OscArgView::Str(s) => lemma_padded_aligned(encode_utf8(s)),
            OscArgView::Bool(_) => {},
        }
    }
}

/// Every OSC message is a whole number of 4-byte words, as OSC 1.0 requires
/// of packets.
pub proof fn lemma_osc_message_aligned(addr: Seq<char>, args: Seq<OscArgView>)
    ensures
        osc_message_bytes(addr, args).len() % 4 == 0,
{
    lemma_padded_aligned(encode_utf8(addr));
    lemma_padded_aligned(seq![0x2cu8] + args.map_values(|a: OscArgView| osc_type_tag(a)));
    lemma_args_data_aligned(args);
}

#[verifier::external_type_specification]
#[verifier::external_body]
pub struct ExOscError(rosc::OscError);

/// Calls `rosc::encoder::encode` on an `OscPacket::Message` with address
/// `addr` and the arguments converted one for one (`Str` to
/// `OscType::String`, `Bool` to `OscType::Bool`). For such a message rosc
/// writes the address, the type tags and the string arguments each with one
/// to four zero bytes up to a multiple of four, booleans as tags only, and
/// always returns `Ok` (writing to a `Vec` cannot fail).
#[verifier::external_body]
fn osc_encode_message(addr: &str, args: &[OscArg]) -> (res: Result<Vec<u8>, rosc::OscError>)
    ensures
        res is Ok,
        res is Ok ==> res->Ok_0@ == osc_message_bytes(addr@, args@.map_values(|a: OscArg| a@)),
{
    let args: Vec<rosc::OscType> = args.iter().map(
        |a| match a {
            OscArg::Str(s) => rosc::OscType::String(s.clone()),
            OscArg::Bool(b) => rosc::OscType::Bool(*b),
        },
    ).collect();
    rosc::encoder::encode(
        &rosc::OscPacket::Message(rosc::OscMessage { addr: addr.to_owned(), args }),
    )
}

/// Encodes an OSC message.
pub fn encode_message(addr: &str, args: &[OscArg]) -> (res: Vec<u8>)
    ensures
        res@ == osc_message_bytes(addr@, args@.map_values(|a: OscArg| a@)),
{
    match osc_encode_message(addr, args) {
        Ok(bytes) => bytes,
        Err(_) => {
            assert(false);
            Vec::new()
        },
    }
}

/// Address of the chatbox's text input.
pub open spec fn chatbox_input_address() -> Seq<char> {
    "/chatbox/input"@
}

/// Address of the chatbox's typing indicator.
pub open spec fn chatbox_typing_address() -> Seq<char> {
    "/chatbox/typing"@
}

/// The packet that puts `message` into the chatbox: sent at once (`true`)
/// and without the notification sound (`false`).
pub fn chatbox_input_packet(message: &str) -> (res: Vec<u8>)
    ensures
        res@ == osc_message_bytes(
            chatbox_input_address(),
            seq![OscArgView::Str(message@), OscArgView::Bool(true), OscArgView::Bool(false)],
        ),
{
    let args = vec![OscArg::Str(message.to_owned()), OscArg::Bool(true), OscArg::Bool(false)];
    let res = encode_message("/chatbox/input", args.as_slice());
    assert(args@.map_values(|a: OscArg| a@) =~= seq![
        OscArgView::Str(message@),
        OscArgView::Bool(true),
        OscArgView::Bool(false),
    ]);
    res
}

/// The packet that turns the chatbox's typing indicator on or off.
pub fn chatbox_typing_packet(is_typing: bool) -> (res: Vec<u8>)
    ensures
        res@ == osc_message_bytes(chatbox_typing_address(), seq![OscArgView::Bool(is_typing)]),
{
    let args = vec![OscArg::Bool(is_typing)];
    let res = encode_message("/chatbox/typing", args.as_slice());
    assert(args@.map_values(|a: OscArg| a@) =~= seq![OscArgView::Bool(is_typing)]);
    res
}

} // verus!
