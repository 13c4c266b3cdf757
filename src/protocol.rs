//! The opcode grammar shared by both transports: request frames, reply
//! decoding, decimal numbers and the splitting of message blobs into lines.
use crate::shared::ClientError;
use vstd::prelude::*;
use vstd::utf8::encode_utf8;

verus! {

/// `bytes` with every zero byte taken out, the other bytes in order.
pub open spec fn without_nulls(bytes: Seq<u8>) -> Seq<u8>
    decreases bytes.len(),
{
    if bytes.len() == 0 {
        Seq::empty()
    } else if bytes.last() == 0 {
        without_nulls(bytes.drop_last())
    } else {
        without_nulls(bytes.drop_last()).push(bytes.last())
    }
}

/// Removes null bytes from `data`.
///
/// Some servers pad their replies with zero bytes; they are dropped before a
/// reply is read as text or as a number.
pub fn remove_nulls(data: &mut Vec<u8>)
    ensures
        final(data)@ == without_nulls(old(data)@),
{
    let mut kept: Vec<u8> = Vec::new();
    let mut i: usize = 0;
    while i < data.len()
        invariant
            i <= data@.len(),
            kept@ == without_nulls(data@.subrange(0, i as int)),
        decreases data@.len() - i,
    {
        let b = data[i];
        proof {
            assert(data@.subrange(0, i + 1).drop_last() =~= data@.subrange(0, i as int));
        }
        if b != 0 {
            kept.push(b);
        }
        i = i + 1;
    }
    proof {
        assert(data@.subrange(0, data@.len() as int) =~= data@);
    }
    *data = kept;
}

pub open spec fn is_digit(b: u8) -> bool {
    48 <= b <= 57
}

pub open spec fn all_digits(bytes: Seq<u8>) -> bool {
    forall|i: int| 0 <= i < bytes.len() ==> is_digit(#[trigger] bytes[i])
}

/// The number that a string of ASCII digits spells in base ten.
pub open spec fn decimal_value(bytes: Seq<u8>) -> nat
    decreases bytes.len(),
{
    if bytes.len() == 0 {
        0
    } else {
        decimal_value(bytes.drop_last()) * 10 + (bytes.last() - 48) as nat
    }
}

/// Whether `bytes` is a decimal number that a `usize` can hold.
pub open spec fn is_size_text(bytes: Seq<u8>) -> bool {
    bytes.len() > 0 && all_digits(bytes) && decimal_value(bytes) <= usize::MAX
}

/// The shortest decimal spelling of `n`, in ASCII digits.
pub open spec fn decimal_bytes(n: nat) -> Seq<u8>
    decreases n,
{
    if n < 10 {
        seq![(48 + n) as u8]
    } else {
        decimal_bytes(n / 10).push((48 + n % 10) as u8)
    }
}

proof fn lemma_decimal_value_grows(bytes: Seq<u8>, i: int, j: int)
    requires
        0 <= i <= j <= bytes.len(),
        all_digits(bytes),
    ensures
        decimal_value(bytes.subrange(0, i)) <= decimal_value(bytes.subrange(0, j)),
    decreases j - i,
{
    if i < j {
        lemma_decimal_value_grows(bytes, i, j - 1);
        assert(bytes.subrange(0, j).drop_last() =~= bytes.subrange(0, j - 1));
    }
}

/// Parses a decimal number made of ASCII digits only.
///
/// Returns `None` for an empty input, for any byte that is not a digit, and
/// for a value too large for `usize`.
pub fn parse_decimal(bytes: &[u8]) -> (r: Option<usize>)
    ensures
        r is Some <==> is_size_text(bytes@),
        r is Some ==> r->Some_0 as nat == decimal_value(bytes@),
{
    if bytes.len() == 0 {
        return None;
    }
    let mut acc: usize = 0;
    let mut i: usize = 0;
    while i < bytes.len()
        invariant
            i <= bytes@.len(),
            all_digits(bytes@.subrange(0, i as int)),
            acc as nat == decimal_value(bytes@.subrange(0, i as int)),
        decreases bytes@.len() - i,
    {
        let b = bytes[i];
        proof {
            assert(bytes@.subrange(0, i + 1).drop_last() =~= bytes@.subrange(0, i as int));
        }
        if b < 48 || b > 57 {
            assert(!all_digits(bytes@));
            return None;
        }
        let d: usize = (b - 48) as usize;
        if acc > (usize::MAX - d) / 10 {
            proof {
                assert(decimal_value(bytes@.subrange(0, i + 1)) > usize::MAX) by (nonlinear_arith)
                    requires
                        acc > (usize::MAX - d) / 10,
                        decimal_value(bytes@.subrange(0, i + 1)) == acc * 10 + d,
                ;
                if all_digits(bytes@) {
                    lemma_decimal_value_grows(bytes@, i + 1, bytes@.len() as int);
                    assert(bytes@.subrange(0, bytes@.len() as int) =~= bytes@);
                }
            }
            return None;
        }
        acc = acc * 10 + d;
        i = i + 1;
        assert(all_digits(bytes@.subrange(0, i as int)));
    }
    proof {
        assert(bytes@.subrange(0, bytes@.len() as int) =~= bytes@);
    }
    Some(acc)
}

/// Appends the decimal spelling of `n` to `out`.
pub fn push_decimal(out: &mut Vec<u8>, n: usize)
    ensures
        final(out)@ == old(out)@ + decimal_bytes(n as nat),
    decreases n,
{
    if n >= 10 {
        push_decimal(out, n / 10);
    }
    out.push(48 + (n % 10) as u8);
}


/// The text that `String::from_utf8_lossy` makes of `bytes`.
pub uninterp spec fn lossy_text(bytes: Seq<u8>) -> Seq<char>;

/// Relies on `String::from_utf8_lossy`: the text depends on the bytes alone.
#[verifier::external_body]
fn utf8_lossy(bytes: &[u8]) -> (r: String)
    ensures
        r@ == lossy_text(bytes@),
{
    String::from_utf8_lossy(bytes).into_owned()
}

/// `line` without one trailing carriage return.
pub open spec fn strip_cr(line: Seq<u8>) -> Seq<u8> {
    if line.len() > 0 && line.last() == 13 {
        line.drop_last()
    } else {
        line
    }
}

/// `line` as a list of lines: empty if it is empty, else the line alone.
pub open spec fn nonempty(line: Seq<u8>) -> Seq<Seq<u8>> {
    if line.len() == 0 {
        Seq::empty()
    } else {
        seq![line]
    }
}

/// The non-empty lines of `rest`, where `cur` holds what was read of the line
/// in progress. A line ends at a line feed, which also drops one carriage
/// return before it; the last line needs no line feed.
pub open spec fn lines_from(rest: Seq<u8>, cur: Seq<u8>) -> Seq<Seq<u8>>
    decreases rest.len(),
{
    if rest.len() == 0 {
        nonempty(cur)
    } else if rest[0] == 10 {
        nonempty(strip_cr(cur)) + lines_from(rest.drop_first(), Seq::empty())
    } else {
        lines_from(rest.drop_first(), cur.push(rest[0]))
    }
}

/// The non-empty lines of a message blob, as bytes.
pub open spec fn message_lines(blob: Seq<u8>) -> Seq<Seq<u8>> {
    lines_from(blob, Seq::empty())
}

/// Whether `r` holds, in order, the text of each line in `lines`.
pub open spec fn texts_of(r: Seq<String>, lines: Seq<Seq<u8>>) -> bool {
    &&& r.len() == lines.len()
    &&& forall|k: int| 0 <= k < r.len() ==> #[trigger] r[k]@ == lossy_text(lines[k])
}

fn push_line(out: &mut Vec<String>, done: Ghost<Seq<Seq<u8>>>, line: &Vec<u8>) -> (new_done: Ghost<
    Seq<Seq<u8>>,
>)
    requires
        texts_of(old(out)@, done@),
    ensures
        new_done@ == done@ + nonempty(line@),
        texts_of(final(out)@, new_done@),
{
    if line.len() > 0 {
        let text = utf8_lossy(line.as_slice());
        out.push(text);
        let ghost nd = done@.push(line@);
        assert(texts_of(out@, nd)) by {
            assert forall|k: int| 0 <= k < out@.len() implies #[trigger] out@[k]@ == lossy_text(
                nd[k],
            ) by {
                if k < done@.len() {
                    assert(out@[k] == old(out)@[k]);
                }
            }
        }
        assert(nd =~= done@ + nonempty(line@));
        Ghost(nd)
    } else {
        assert(done@ + nonempty(line@) =~= done@);
        done
    }
}

/// Splits a message blob into its non-empty lines.
///
/// Lines end at `\n` (a `\r` right before it is dropped too); empty lines
/// are discarded; each line is read as UTF-8, invalid sequences replaced.
pub fn split_lines(blob: &[u8]) -> (r: Vec<String>)
    ensures
        texts_of(r@, message_lines(blob@)),
{
    let mut out: Vec<String> = Vec::new();
    let mut cur: Vec<u8> = Vec::new();
    let ghost mut done: Seq<Seq<u8>> = Seq::empty();
    let mut i: usize = 0;
    assert(blob@.skip(0) =~= blob@);
    assert(done + lines_from(blob@, cur@) =~= message_lines(blob@));
    while i < blob.len()
        invariant
            i <= blob@.len(),
            texts_of(out@, done),
            done + lines_from(blob@.skip(i as int), cur@) == message_lines(blob@),
        decreases blob@.len() - i,
    {
        let b = blob[i];
        assert(blob@.skip(i as int).drop_first() =~= blob@.skip(i + 1));
        if b == 10 {
            let ghost cur0 = cur@;
            if cur.len() > 0 && cur[cur.len() - 1] == 13 {
                cur.pop();
                assert(cur@ =~= strip_cr(cur0));
            }
            let Ghost(nd) = push_line(&mut out, Ghost(done), &cur);
            proof {
                assert(nd + lines_from(blob@.skip(i + 1), Seq::empty()) =~= done + lines_from(
                    blob@.skip(i as int),
                    cur0,
                ));
                done = nd;
            }
            cur = Vec::new();
        } else {
            cur.push(b);
        }
        i = i + 1;
    }
    assert(blob@.skip(i as int) =~= Seq::<u8>::empty());
    let Ghost(nd) = push_line(&mut out, Ghost(done), &cur);
    assert(nd =~= message_lines(blob@));
    out
}


/// The size that a reply to a size request states, once null bytes are taken
/// out; `None` where it is not a decimal number that a `usize` can hold.
pub open spec fn size_in_reply(reply: Seq<u8>) -> Option<nat> {
    let text = without_nulls(reply);
    if is_size_text(text) {
        Some(decimal_value(text))
    } else {
        None
    }
}

/// The outcome owed for a reply to a size request: an empty reply means the
/// server closed the connection, a reply that is no size is a parse error.
pub open spec fn size_reply_result(reply: Seq<u8>, r: Result<usize, ClientError>) -> bool {
    if reply.len() == 0 {
        r matches Err(ClientError::ServerClosedConnection)
    } else {
        match size_in_reply(reply) {
            Some(n) => r == Ok::<usize, ClientError>(n as usize),
            None => r matches Err(ClientError::ParseError(_)),
        }
    }
}

/// Decodes the reply to a size request.
pub fn decode_size_reply(reply: &[u8]) -> (r: Result<usize, ClientError>)
    ensures
        size_reply_result(reply@, r),
{
    if reply.len() == 0 {
        return Err(ClientError::ServerClosedConnection);
    }
    let mut text: Vec<u8> = Vec::new();
    text.extend_from_slice(reply);
    assert(text@ =~= reply@);
    remove_nulls(&mut text);
    match parse_decimal(text.as_slice()) {
        Some(n) => Ok(n),
        None => Err(ClientError::ParseError("Failed to parse messages size".to_owned())),
    }
}

/// The outcome owed for the status reply to a registration.
pub open spec fn register_status_result(reply: Seq<u8>, r: Result<(), ClientError>) -> bool {
    if reply.len() == 0 {
        r is Ok
    } else if reply[0] == 1 {
        r matches Err(ClientError::UsernameAlreadyTaken)
    } else {
        match r {
            Err(ClientError::UnexpectedResponse(text)) => text@ == lossy_text(reply),
            _ => false,
        }
    }
}

/// Decodes the status reply to a registration: no reply is success, `0x01`
/// means the name is taken, anything else is unexpected.
pub fn decode_register_status(reply: &[u8]) -> (r: Result<(), ClientError>)
    ensures
        register_status_result(reply@, r),
{
    if reply.len() == 0 {
        Ok(())
    } else if reply[0] == 1 {
        Err(ClientError::UsernameAlreadyTaken)
    } else {
        Err(ClientError::UnexpectedResponse(utf8_lossy(reply)))
    }
}

/// The outcome owed for the status reply to an authenticated message.
pub open spec fn send_status_result(reply: Seq<u8>, r: Result<(), ClientError>) -> bool {
    if reply.len() == 0 {
        r is Ok
    } else if reply[0] == 1 {
        r matches Err(ClientError::UserDoesNotExist)
    } else if reply[0] == 2 {
        r matches Err(ClientError::IncorrectPassword)
    } else {
        match r {
            Err(ClientError::UnexpectedResponse(text)) => text@ == lossy_text(reply),
            _ => false,
        }
    }
}

/// Decodes the status reply to an authenticated message: no reply is
/// success, `0x01` an unknown user, `0x02` a wrong password, anything else
/// is unexpected.
pub fn decode_send_status(reply: &[u8]) -> (r: Result<(), ClientError>)
    ensures
        send_status_result(reply@, r),
{
    if reply.len() == 0 {
        Ok(())
    } else if reply[0] == 1 {
        Err(ClientError::UserDoesNotExist)
    } else if reply[0] == 2 {
        Err(ClientError::IncorrectPassword)
    } else {
        Err(ClientError::UnexpectedResponse(utf8_lossy(reply)))
    }
}

/// A request of the protocol. The same opcode means different things on the
/// read and on the write side, so each exchange has a variant of its own.
#[derive(Debug)]
pub enum Request {
    /// Asks for the total size of the message log.
    GetSize,
    /// Asks for the whole message log.
    FetchAll,
    /// Asks for the part of the log past the given size.
    FetchDelta(usize),
    /// Posts a message without authentication.
    SendAnonymous(String),
    /// Posts a message as a registered user.
    SendAuthenticated { username: String, password: String, message: String },
    /// Registers a user.
    Register { username: String, password: String },
}

/// The bytes of a request on the wire: the opcode, then its payload.
pub open spec fn request_bytes(req: Request) -> Seq<u8> {
    match req {
        Request::GetSize => seq![0u8],
        Request::FetchAll => seq![1u8],
        Request::FetchDelta(known) => seq![2u8] + decimal_bytes(known as nat),
        Request::SendAnonymous(message) => seq![1u8] + encode_utf8(message@),
        Request::SendAuthenticated { username, password, message } => seq![2u8] + encode_utf8(
            username@,
        ) + seq![10u8] + encode_utf8(password@) + seq![10u8] + encode_utf8(message@),
        Request::Register { username, password } => seq![3u8] + encode_utf8(username@) + seq![10u8]
            + encode_utf8(password@),
    }
}

fn push_text(out: &mut Vec<u8>, text: &String)
    ensures
        final(out)@ == old(out)@ + encode_utf8(text@),
{
    let bytes = text.as_str().as_bytes();
    out.extend_from_slice(bytes);
    assert(out@ =~= old(out)@ + encode_utf8(text@));
}

impl Request {
    /// The frame that carries this request.
    pub fn encode(&self) -> (r: Vec<u8>)
        ensures
            r@ == request_bytes(*self),
    {
        let mut out: Vec<u8> = Vec::new();
        match self {
            Request::GetSize => {
                out.push(0);
            },
            Request::FetchAll => {
                out.push(1);
            },
            Request::FetchDelta(known) => {
                out.push(2);
                push_decimal(&mut out, *known);
            },
            Request::SendAnonymous(message) => {
                out.push(1);
                push_text(&mut out, message);
            },
            Request::SendAuthenticated { username, password, message } => {
                out.push(2);
                push_text(&mut out, username);
                out.push(10);
                push_text(&mut out, password);
                out.push(10);
                push_text(&mut out, message);
            },
            Request::Register { username, password } => {
                out.push(3);
                push_text(&mut out, username);
                out.push(10);
                push_text(&mut out, password);
            },
        }
        assert(out@ =~= request_bytes(*self));
        out
    }

    /// Whether the server answers this request with a status byte.
    pub fn awaits_status(&self) -> (r: bool)
        ensures
            r == (*self is SendAuthenticated || *self is Register),
    {
        match self {
            Request::SendAuthenticated { .. } | Request::Register { .. } => true,
            _ => false,
        }
    }
}


/// `text` with each occurrence of `from` replaced by `to`, the occurrences
/// taken from left to right without overlap.
pub open spec fn replace_all(text: Seq<char>, from: Seq<char>, to: Seq<char>) -> Seq<char>
    decreases text.len(),
{
    if text.len() == 0 || from.len() == 0 {
        text
    } else if from.len() <= text.len() && text.subrange(0, from.len() as int) == from {
        to + replace_all(text.skip(from.len() as int), from, to)
    } else {
        seq![text[0]] + replace_all(text.drop_first(), from, to)
    }
}

/// Relies on `str::replace`: every non-overlapping match of `from`, taken
/// from left to right, is replaced by `to`.
#[verifier::external_body]
pub(crate) fn replace_text(text: &str, from: &str, to: &str) -> (r: String)
    requires
        from@.len() > 0,
    ensures
        r@ == replace_all(text@, from@, to@),
{
    text.replace(from, to)
}

/// The placeholder that `send_message` fills with the username.
pub open spec fn username_placeholder() -> Seq<char> {
    seq!['{', 'u', 's', 'e', 'r', 'n', 'a', 'm', 'e', '}']
}

/// Fills the username into each `{username}` placeholder of `message`.
pub fn fill_username(message: &str, username: &str) -> (r: String)
    ensures
        r@ == replace_all(message@, username_placeholder(), username@),
{
    let placeholder = "{username}";
    proof {
        reveal_strlit("{username}");
        assert(placeholder@ =~= username_placeholder());
    }
    replace_text(message, placeholder, username)
}


proof fn lemma_without_nulls_append(x: Seq<u8>, y: Seq<u8>)
    ensures
        without_nulls(x + y) == without_nulls(x) + without_nulls(y),
    decreases y.len(),
{
    if y.len() == 0 {
        assert(x + y =~= x);
        assert(without_nulls(x) + without_nulls(y) =~= without_nulls(x));
    } else {
        lemma_without_nulls_append(x, y.drop_last());
        assert((x + y).drop_last() =~= x + y.drop_last());
        if y.last() == 0 {
        } else {
            assert(without_nulls(x) + without_nulls(y.drop_last()).push(y.last()) =~= (without_nulls(
                x,
            ) + without_nulls(y.drop_last())).push(y.last()));
        }
    }
}

/// A null byte anywhere in a reply changes nothing: the size it states and
/// the lines it holds are those of the reply without it.
pub proof fn law_null_bytes_ignored(before: Seq<u8>, after: Seq<u8>)
    ensures
        without_nulls(before + seq![0u8] + after) == without_nulls(before + after),
        size_in_reply(before + seq![0u8] + after) == size_in_reply(before + after),
        message_lines(without_nulls(before + seq![0u8] + after)) == message_lines(
            without_nulls(before + after),
        ),
{
    lemma_without_nulls_append(before + seq![0u8], after);
    lemma_without_nulls_append(before, seq![0u8]);
    lemma_without_nulls_append(before, after);
    assert(seq![0u8].drop_last() =~= Seq::<u8>::empty());
    reveal_with_fuel(without_nulls, 2);
    assert(without_nulls(seq![0u8]) =~= Seq::<u8>::empty());
    assert(without_nulls(before) + Seq::<u8>::empty() =~= without_nulls(before));
}

proof fn lemma_lines_from_nonempty(rest: Seq<u8>, cur: Seq<u8>)
    ensures
        forall|k: int|
            0 <= k < lines_from(rest, cur).len() ==> #[trigger] lines_from(rest, cur)[k].len() > 0,
    decreases rest.len(),
{
    if rest.len() == 0 {
        assert forall|k: int| 0 <= k < lines_from(rest, cur).len() implies #[trigger] lines_from(
            rest,
            cur,
        )[k].len() > 0 by {
            assert(lines_from(rest, cur) == nonempty(cur));
        }
    } else if rest[0] == 10 {
        lemma_lines_from_nonempty(rest.drop_first(), Seq::empty());
        let head = nonempty(strip_cr(cur));
        let tail = lines_from(rest.drop_first(), Seq::empty());
        assert forall|k: int| 0 <= k < lines_from(rest, cur).len() implies #[trigger] lines_from(
            rest,
            cur,
        )[k].len() > 0 by {
            assert(lines_from(rest, cur) == head + tail);
            if k >= head.len() {
                assert(lines_from(rest, cur)[k] == tail[k - head.len()]);
            } else {
                assert(lines_from(rest, cur)[k] == strip_cr(cur));
            }
        }
    } else {
        lemma_lines_from_nonempty(rest.drop_first(), cur.push(rest[0]));
        assert(lines_from(rest, cur) == lines_from(rest.drop_first(), cur.push(rest[0])));
    }
}

/// Splitting a blob into lines never yields an empty line.
pub proof fn law_lines_are_nonempty(blob: Seq<u8>)
    ensures
        forall|k: int|
            0 <= k < message_lines(blob).len() ==> #[trigger] message_lines(blob)[k].len() > 0,
{
    lemma_lines_from_nonempty(blob, Seq::empty());
}

/// A decimal number that fits a `usize`, sent as a size reply, states
/// exactly its value.
pub proof fn law_decimal_size_reply(text: Seq<u8>)
    requires
        is_size_text(text),
    ensures
        size_in_reply(text) == Some(decimal_value(text)),
{
    lemma_digits_keep(text);
}

proof fn lemma_digits_keep(text: Seq<u8>)
    requires
        all_digits(text),
    ensures
        without_nulls(text) == text,
    decreases text.len(),
{
    if text.len() > 0 {
        assert(all_digits(text.drop_last()));
        lemma_digits_keep(text.drop_last());
        assert(is_digit(text[text.len() - 1]));
        assert(text.drop_last().push(text.last()) =~= text);
    }
}

} // verus!
