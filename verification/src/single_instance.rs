//! Handing an open request to a window that is already there.
use crate::text;
use vstd::prelude::*;

verus! {

/// A request to open a path, or only to come to the front.
#[derive(Debug)]
pub struct IpcRequest {
    pub path: Option<String>,
}

/// The BLAKE3 hash of some bytes, in hexadecimal digits.
pub uninterp spec fn blake3_hex(bytes: Seq<u8>) -> Seq<char>;

/// `blake3::hash` of some bytes, and `to_hex` of it: 64 digits.
#[verifier::external_body]
fn hash_hex(bytes: &[u8]) -> (hex: String)
    ensures
        hex@ == blake3_hex(bytes@),
        hex@.len() == 64,
{
    blake3::hash(bytes).to_hex().to_string()
}

/// The name of the pipe on which the window with this key listens: the same key has the same name
/// in every process.
pub open spec fn pipe_name_of(key: Seq<char>) -> Seq<char> {
    "\\\\.\\pipe\\SuiSuiView-"@ + blake3_hex(vstd::utf8::encode_utf8(key)).take(16)
}

/// The start of a text.
fn push_start(message: &mut String, text: &str, count: usize)
    requires
        count <= text@.len(),
    ensures
        final(message)@ == old(message)@ + text@.take(count as int),
{
    let chars = text::chars_of(text);
    let mut i: usize = 0;
    assert(text@.take(0) =~= Seq::<char>::empty());
    assert(message@ =~= old(message)@ + text@.take(0));
    while i < count
        invariant
            i <= count <= chars@.len(),
            chars@ == text@,
            message@ == old(message)@ + text@.take(i as int),
        decreases count - i,
    {
        message.push(chars[i]);
        i = i + 1;
        assert(message@ =~= old(message)@ + text@.take(i as int));
    }
}

/// The name of the pipe on which the window with this key listens.
pub fn pipe_name_for_key(key: &str) -> (name: String)
    ensures
        name@ == pipe_name_of(key@),
{
    let hex = hash_hex(key.as_bytes());
    let mut name = "\\\\.\\pipe\\SuiSuiView-".to_owned();
    push_start(&mut name, hex.as_str(), 16);
    name
}

/// What the listener does next.
#[derive(Debug, Clone, Copy, PartialEq, Eq, Structural)]
pub enum ListenerStep {
    Stop,
    PauseAndRetry,
    Decode,
}

/// What the listener does after it has waited for a message: it stops where it was told to,
/// whatever arrived; else it decodes the message, or, without one, tries again after a pause.
pub fn after_read(running: bool, received: bool) -> (step: ListenerStep)
    ensures
        step == if !running {
            ListenerStep::Stop
        } else if received {
            ListenerStep::Decode
        } else {
            ListenerStep::PauseAndRetry
        },
{
    if !running {
        ListenerStep::Stop
    } else if received {
        ListenerStep::Decode
    } else {
        ListenerStep::PauseAndRetry
    }
}

/// The name of a pipe has a place of its own for every digest of a key, and is as long for every key:
/// two keys whose digests begin alike, and no others, have the same name.
pub proof fn pipe_names_follow_the_digests(key: Seq<char>, other: Seq<char>)
    requires
        blake3_hex(vstd::utf8::encode_utf8(key)).len() == 64,
        blake3_hex(vstd::utf8::encode_utf8(other)).len() == 64,
    ensures
        pipe_name_of(key).len() == pipe_name_of(other).len(),
        pipe_name_of(key) == pipe_name_of(other) <==> (forall|i: int|
            0 <= i < 16 ==> #[trigger] blake3_hex(vstd::utf8::encode_utf8(key))[i] == blake3_hex(
                vstd::utf8::encode_utf8(other),
            )[i]),
{
    let (one, two) = (
        blake3_hex(vstd::utf8::encode_utf8(key)),
        blake3_hex(vstd::utf8::encode_utf8(other)),
    );
    let start = "\\\\.\\pipe\\SuiSuiView-"@;
    let (a, b) = (start + one.take(16), start + two.take(16));
    if a == b {
        assert forall|i: int| 0 <= i < 16 implies #[trigger] one[i] == two[i] by {
            assert(a[start.len() + i] == one[i] && b[start.len() + i] == two[i]);
        }
    }
    if forall|i: int| 0 <= i < 16 ==> #[trigger] one[i] == two[i] {
        assert(one.take(16) =~= two.take(16));
    }
}

} // verus!
