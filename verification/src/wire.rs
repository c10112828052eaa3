use vstd::prelude::*;
use crate::command::ControlCommand;

verus! {

/// Whether `c` is one of the ten ASCII digits.
pub open spec fn is_digit(c: char) -> bool {
    '0' <= c <= '9'
}

/// The number that a run of ASCII digits writes in base ten.
pub open spec fn decimal(digits: Seq<char>) -> int
    decreases digits.len(),
{
    if digits.len() == 0 {
        0
    } else {
        decimal(digits.drop_last()) * 10 + (digits.last() as int - '0' as int)
    }
}

/// Whether every character of `digits` is an ASCII digit.
pub open spec fn all_digits(digits: Seq<char>) -> bool {
    forall|k: int| 0 <= k < digits.len() ==> is_digit(#[trigger] digits[k])
}

/// The number that `text` writes: an optional `+` or `-`, then one or more
/// ASCII digits, with a value that an `i32` holds. Anything else is no
/// number.
pub open spec fn parsed(text: Seq<char>) -> Option<i32> {
    let signed = text.len() > 0 && (text[0] == '-' || text[0] == '+');
    let digits = if signed {
        text.skip(1)
    } else {
        text
    };
    let magnitude = decimal(digits);
    let value = if text.len() > 0 && text[0] == '-' {
        -magnitude
    } else {
        magnitude
    };
    if digits.len() > 0 && all_digits(digits) && i32::MIN <= value <= i32::MAX {
        Some(value as i32)
    } else {
        None
    }
}

/// The number that `text` writes, or zero where it writes none.
pub open spec fn number_or_zero(text: Seq<char>) -> i32 {
    match parsed(text) {
        Some(v) => v,
        None => 0,
    }
}

/// Where the first `@` of `text` stands, or the length of `text` where it
/// has none.
pub open spec fn first_at(text: Seq<char>) -> int
    decreases text.len(),
{
    if text.len() == 0 || text[0] == '@' {
        0
    } else {
        1 + first_at(text.drop_first())
    }
}

/// The part of `text` before its first `@`.
pub open spec fn head(text: Seq<char>) -> Seq<char> {
    text.take(first_at(text))
}

/// The part of `text` after its first `@`; empty where it has none.
pub open spec fn tail(text: Seq<char>) -> Seq<char> {
    if first_at(text) < text.len() {
        text.skip(first_at(text) + 1)
    } else {
        Seq::empty()
    }
}

/// The command that a name and a value stand for. A value that is no number
/// counts as zero. A resolution is written width, `@`, height; what follows
/// a second `@` is not read. An unknown name stands for no command.
pub open spec fn decoded(name: Seq<char>, value: Seq<char>) -> Option<ControlCommand> {
    if name == "setFrameRate"@ {
        Some(ControlCommand::SetFrameRate(number_or_zero(value)))
    } else if name == "setResolution"@ {
        Some(
            ControlCommand::SetResolution(
                number_or_zero(head(value)),
                number_or_zero(head(tail(value))),
            ),
        )
    } else if name == "setWidth"@ {
        Some(ControlCommand::SetWidth(number_or_zero(value)))
    } else if name == "setHeight"@ {
        Some(ControlCommand::SetHeight(number_or_zero(value)))
    } else if name == "stop"@ {
        Some(ControlCommand::Stop)
    } else {
        None
    }
}

/// The commands that a run of messages stands for, in order; messages with
/// unknown names are left out.
pub open spec fn decoded_all(messages: Seq<(String, String)>) -> Seq<ControlCommand>
    decreases messages.len(),
{
    if messages.len() == 0 {
        Seq::empty()
    } else {
        let before = decoded_all(messages.drop_last());
        match decoded(messages.last().0@, messages.last().1@) {
            Some(cmd) => before.push(cmd),
            None => before,
        }
    }
}

/// A message with an unknown name may stand anywhere among the others: the
/// same commands are decoded.
pub proof fn lemma_unknown_name_changes_nothing(
    messages: Seq<(String, String)>,
    at: int,
    message: (String, String),
)
    requires
        0 <= at <= messages.len(),
        decoded(message.0@, message.1@) is None,
    ensures
        decoded_all(messages.insert(at, message)) == decoded_all(messages),
    decreases messages.len(),
{
    let longer = messages.insert(at, message);
    if at == messages.len() {
        assert(longer.drop_last() =~= messages);
        assert(longer.last() == message);
    } else {
        assert(longer.drop_last() =~= messages.drop_last().insert(at, message));
        assert(longer.last() == messages.last());
        lemma_unknown_name_changes_nothing(messages.drop_last(), at, message);
    }
}

/// A place up to which `text` has no `@`, and which holds one or is the
/// end, is where the first `@` stands.
pub proof fn lemma_first_at(text: Seq<char>, at: int)
    requires
        0 <= at <= text.len(),
        forall|k: int| 0 <= k < at ==> #[trigger] text[k] != '@',
        at < text.len() ==> text[at] == '@',
    ensures
        first_at(text) == at,
    decreases at,
{
    if at > 0 {
        let rest = text.drop_first();
        assert(text[0] != '@');
        assert forall|k: int| 0 <= k < at - 1 implies #[trigger] rest[k] != '@' by {
            assert(rest[k] == text[k + 1]);
        }
        lemma_first_at(rest, at - 1);
    }
}

/// A run of digits writes at least what any of its beginnings writes.
pub proof fn lemma_decimal_grows(digits: Seq<char>, upto: int)
    requires
        all_digits(digits),
        0 <= upto <= digits.len(),
    ensures
        0 <= decimal(digits.take(upto)) <= decimal(digits),
    decreases digits.len() - upto,
{
    if upto == digits.len() {
        assert(digits.take(upto) =~= digits);
        lemma_decimal_nonnegative(digits);
    } else {
        lemma_decimal_grows(digits, upto + 1);
        let longer = digits.take(upto + 1);
        assert(longer.drop_last() =~= digits.take(upto));
        assert(is_digit(digits[upto]));
        assert(longer.last() == digits[upto]);
        lemma_decimal_nonnegative(digits.take(upto));
    }
}

/// A run of digits writes no negative number.
pub proof fn lemma_decimal_nonnegative(digits: Seq<char>)
    requires
        all_digits(digits),
    ensures
        decimal(digits) >= 0,
    decreases digits.len(),
{
    if digits.len() > 0 {
        assert(is_digit(digits.last()));
        assert forall|k: int| 0 <= k < digits.drop_last().len() implies is_digit(
            #[trigger] digits.drop_last()[k],
        ) by {
            assert(digits.drop_last()[k] == digits[k]);
        }
        lemma_decimal_nonnegative(digits.drop_last());
    }
}

/// Reads `text` as a number: an optional sign, then digits, within `i32`.
pub fn parse_number(text: &str) -> (out: Option<i32>)
    ensures
        out == parsed(text@),
{
    let len: usize = text.unicode_len();
    if len == 0 {
        return None;
    }
    let first = text.get_char(0);
    let negative = first == '-';
    let start: usize = if first == '-' || first == '+' {
        1
    } else {
        0
    };
    let ghost digits = if start == 1 {
        text@.skip(1)
    } else {
        text@
    };
    if start == len {
        return None;
    }
    let mut magnitude: i64 = 0;
    let mut i: usize = start;
    proof {
        assert(digits.take(0) =~= Seq::empty());
    }
    while i < len
        invariant
            start <= i <= len,
            len == text@.len(),
            len > 0,
            start <= 1,
            start == 1 <==> (text@[0] == '-' || text@[0] == '+'),
            negative == (text@[0] == '-'),
            digits == (if start == 1 {
                text@.skip(1)
            } else {
                text@
            }),
            digits.len() == len - start,
            forall|k: int| 0 <= k < digits.len() ==> digits[k] == text@[k + start],
            forall|k: int| 0 <= k < i - start ==> is_digit(#[trigger] digits[k]),
            magnitude == decimal(digits.take(i - start)),
            0 <= magnitude <= 0x8000_0000,
        decreases len - i,
    {
        let c = text.get_char(i);
        proof {
            assert(c == digits[i - start]);
            assert(digits.take(i - start + 1).drop_last() =~= digits.take(i - start));
            assert(digits.take(i - start + 1).last() == c);
        }
        if !(c >= '0' && c <= '9') {
            assert(!all_digits(digits));
            return None;
        }
        let d: i64 = (c as u32 - '0' as u32) as i64;
        let next: i64 = magnitude * 10 + d;
        if next > 0x8000_0000 {
            proof {
                assert(decimal(digits.take(i - start + 1)) == next);
                if all_digits(digits) {
                    lemma_decimal_grows(digits, i - start + 1);
                }
            }
            return None;
        }
        magnitude = next;
        i += 1;
    }
    proof {
        assert(digits.take(i - start) =~= digits);
        assert(all_digits(digits));
    }
    if negative {
        Some((-magnitude) as i32)
    } else if magnitude <= 0x7FFF_FFFF {
        Some(magnitude as i32)
    } else {
        None
    }
}

/// Reads `text` as a number, taking what is no number for zero.
pub fn parse_or_zero(text: &str) -> (out: i32)
    ensures
        out == number_or_zero(text@),
{
    match parse_number(text) {
        Some(v) => v,
        None => 0,
    }
}

/// Splits `text` at its first `@`.
pub fn split_at_sign(text: &str) -> (out: (&str, &str))
    ensures
        out.0@ == head(text@),
        out.1@ == tail(text@),
{
    let len: usize = text.unicode_len();
    let mut at: usize = 0;
    while at < len && text.get_char(at) != '@'
        invariant
            at <= len,
            len == text@.len(),
            forall|k: int| 0 <= k < at ==> #[trigger] text@[k] != '@',
        decreases len - at,
    {
        at += 1;
    }
    proof {
        lemma_first_at(text@, at as int);
    }
    let before = text.substring_char(0, at);
    if at < len {
        let after = text.substring_char(at + 1, len);
        assert(after@ =~= text@.skip(at + 1));
        assert(before@ =~= text@.take(at as int));
        (before, after)
    } else {
        let after = text.substring_char(len, len);
        assert(after@ =~= Seq::empty());
        assert(before@ =~= text@.take(at as int));
        (before, after)
    }
}

/// Whether two texts are the same.
fn same_text(a: &str, b: &str) -> (out: bool)
    ensures
        out == (a@ == b@),
{
    let len: usize = a.unicode_len();
    if b.unicode_len() != len {
        return false;
    }
    let mut i: usize = 0;
    while i < len
        invariant
            i <= len,
            len == a@.len(),
            len == b@.len(),
            forall|k: int| 0 <= k < i ==> a@[k] == b@[k],
        decreases len - i,
    {
        if a.get_char(i) != b.get_char(i) {
            return false;
        }
        i += 1;
    }
    assert(a@ =~= b@);
    true
}

/// Decodes one message of the command channel. `None` for a name that
/// names no command: such a message changes nothing.
pub fn decode_command(name: &str, value: &str) -> (out: Option<ControlCommand>)
    ensures
        out == decoded(name@, value@),
{
    if same_text(name, "setFrameRate") {
        Some(ControlCommand::SetFrameRate(parse_or_zero(value)))
    } else if same_text(name, "setResolution") {
        let (width, rest) = split_at_sign(value);
        let (height, _) = split_at_sign(rest);
        Some(ControlCommand::SetResolution(parse_or_zero(width), parse_or_zero(height)))
    } else if same_text(name, "setWidth") {
        Some(ControlCommand::SetWidth(parse_or_zero(value)))
    } else if same_text(name, "setHeight") {
        Some(ControlCommand::SetHeight(parse_or_zero(value)))
    } else if same_text(name, "stop") {
        Some(ControlCommand::Stop)
    } else {
        None
    }
}

/// The character that writes the digit `d`.
pub open spec fn digit_char(d: int) -> char {
    if d == 0 {
        '0'
    } else if d == 1 {
        '1'
    } else if d == 2 {
        '2'
    } else if d == 3 {
        '3'
    } else if d == 4 {
        '4'
    } else if d == 5 {
        '5'
    } else if d == 6 {
        '6'
    } else if d == 7 {
        '7'
    } else if d == 8 {
        '8'
    } else {
        '9'
    }
}

/// The digits that write `m` in base ten, without leading zeros.
pub open spec fn digits_of(m: nat) -> Seq<char>
    decreases m,
{
    if m < 10 {
        seq![digit_char(m as int)]
    } else {
        digits_of(m / 10).push(digit_char((m % 10) as int))
    }
}

/// The text that writes `v`: a `-` where it is negative, then the digits of
/// its magnitude.
pub open spec fn number_text(v: i32) -> Seq<char> {
    if v < 0 {
        seq!['-'] + digits_of((-v) as nat)
    } else {
        digits_of(v as nat)
    }
}

/// The name and the value that write `cmd` on the command channel.
pub open spec fn encoded(cmd: ControlCommand) -> (Seq<char>, Seq<char>) {
    match cmd {
        ControlCommand::SetFrameRate(r) => ("setFrameRate"@, number_text(r)),
        ControlCommand::SetResolution(w, h) => (
            "setResolution"@,
            number_text(w) + seq!['@'] + number_text(h),
        ),
        ControlCommand::SetWidth(w) => ("setWidth"@, number_text(w)),
        ControlCommand::SetHeight(h) => ("setHeight"@, number_text(h)),
        ControlCommand::Stop => ("stop"@, Seq::empty()),
    }
}

/// The digits of a number are digits, at least one, and write that number.
pub proof fn lemma_digits_of(m: nat)
    ensures
        digits_of(m).len() > 0,
        all_digits(digits_of(m)),
        decimal(digits_of(m)) == m,
    decreases m,
{
    if m < 10 {
        let one = digits_of(m);
        assert(one.drop_last() =~= Seq::empty());
        assert(decimal(one.drop_last()) == 0);
    } else {
        lemma_digits_of(m / 10);
        let all = digits_of(m);
        assert(all.drop_last() =~= digits_of(m / 10));
        assert(all.last() == digit_char((m % 10) as int));
    }
}

/// What was written is read back: the text of a number parses to it.
pub proof fn lemma_number_round_trip(v: i32)
    ensures
        parsed(number_text(v)) == Some(v),
        forall|k: int| 0 <= k < number_text(v).len() ==> #[trigger] number_text(v)[k] != '@',
{
    if v < 0 {
        let m = (-v) as nat;
        lemma_digits_of(m);
        let text = number_text(v);
        assert(text[0] == '-');
        assert(text.skip(1) =~= digits_of(m));
        assert forall|k: int| 0 <= k < text.len() implies #[trigger] text[k] != '@' by {
            if k > 0 {
                assert(text[k] == digits_of(m)[k - 1]);
                assert(is_digit(digits_of(m)[k - 1]));
            }
        }
    } else {
        let m = v as nat;
        lemma_digits_of(m);
        let text = number_text(v);
        assert(is_digit(text[0]));
        assert forall|k: int| 0 <= k < text.len() implies #[trigger] text[k] != '@' by {
            assert(is_digit(text[k]));
        }
    }
}

/// What the handle writes the worker reads: every command decodes from its
/// encoding.
pub proof fn lemma_command_round_trip(cmd: ControlCommand)
    ensures
        decoded(encoded(cmd).0, encoded(cmd).1) == Some(cmd),
{
    reveal_strlit("setFrameRate");
    reveal_strlit("setResolution");
    reveal_strlit("setWidth");
    reveal_strlit("setHeight");
    reveal_strlit("stop");
    assert("setFrameRate"@.len() == 12);
    assert("setResolution"@.len() == 13);
    assert("setWidth"@.len() == 8);
    assert("setHeight"@.len() == 9);
    assert("stop"@.len() == 4);
    match cmd {
        ControlCommand::SetFrameRate(r) => {
            lemma_number_round_trip(r);
        },
        ControlCommand::SetResolution(w, h) => {
            lemma_number_round_trip(w);
            lemma_number_round_trip(h);
            let a = number_text(w);
            let b = number_text(h);
            let value = a + seq!['@'] + b;
            assert forall|k: int| 0 <= k < a.len() implies #[trigger] value[k] != '@' by {
                assert(value[k] == a[k]);
            }
            assert(value[a.len() as int] == '@');
            lemma_first_at(value, a.len() as int);
            assert(head(value) =~= a);
            assert(tail(value) =~= b);
            lemma_first_at(b, b.len() as int);
            assert(head(b) =~= b);
        },
        ControlCommand::SetWidth(w) => {
            lemma_number_round_trip(w);
        },
        ControlCommand::SetHeight(h) => {
            lemma_number_round_trip(h);
        },
        ControlCommand::Stop => {},
    }
}

/// The text of one digit.
fn digit_text(d: u32) -> (out: &'static str)
    requires
        d < 10,
    ensures
        out@ == seq![digit_char(d as int)],
{
    proof {
        reveal_strlit("0");
        reveal_strlit("1");
        reveal_strlit("2");
        reveal_strlit("3");
        reveal_strlit("4");
        reveal_strlit("5");
        reveal_strlit("6");
        reveal_strlit("7");
        reveal_strlit("8");
        reveal_strlit("9");
    }
    let out = if d == 0 {
        "0"
    } else if d == 1 {
        "1"
    } else if d == 2 {
        "2"
    } else if d == 3 {
        "3"
    } else if d == 4 {
        "4"
    } else if d == 5 {
        "5"
    } else if d == 6 {
        "6"
    } else if d == 7 {
        "7"
    } else if d == 8 {
        "8"
    } else {
        "9"
    };
    assert(out@ =~= seq![digit_char(d as int)]);
    out
}

/// Appends the digits of `m` to `text`.
fn push_digits(text: &mut String, m: u32)
    ensures
        final(text)@ == old(text)@ + digits_of(m as nat),
    decreases m,
{
    if m >= 10 {
        push_digits(text, m / 10);
    }
    text.append(digit_text(m % 10));
    assert(text@ =~= old(text)@ + digits_of(m as nat));
}

/// Writes `v` in base ten, with a `-` before a negative number.
pub fn encode_number(v: i32) -> (out: String)
    ensures
        out@ == number_text(v),
{
    let mut out = String::new();
    if v < 0 {
        proof {
            reveal_strlit("-");
        }
        out.append("-");
        let magnitude: u32 = (-(v as i64)) as u32;
        push_digits(&mut out, magnitude);
        assert(out@ =~= number_text(v));
    } else {
        push_digits(&mut out, v as u32);
        assert(out@ =~= number_text(v));
    }
    out
}

/// Encodes a command as the name and the value that go on the command
/// channel.
pub fn encode_command(cmd: ControlCommand) -> (out: (String, String))
    ensures
        (out.0@, out.1@) == encoded(cmd),
{
    match cmd {
        ControlCommand::SetFrameRate(r) => (String::from_str("setFrameRate"), encode_number(r)),
        ControlCommand::SetResolution(w, h) => {
            let mut value = encode_number(w);
            proof {
                reveal_strlit("@");
            }
            value.append("@");
            let height = encode_number(h);
            value.append(height.as_str());
            assert(value@ =~= number_text(w) + seq!['@'] + number_text(h));
            (String::from_str("setResolution"), value)
        },
        ControlCommand::SetWidth(w) => (String::from_str("setWidth"), encode_number(w)),
        ControlCommand::SetHeight(h) => (String::from_str("setHeight"), encode_number(h)),
        ControlCommand::Stop => (String::from_str("stop"), String::new()),
    }
}

/// Decodes the messages drained from the command channel, in order.
pub fn decode_all(messages: &Vec<(String, String)>) -> (out: Vec<ControlCommand>)
    ensures
        out@ == decoded_all(messages@),
{
    let mut out: Vec<ControlCommand> = Vec::new();
    let mut i: usize = 0;
    assert(messages@.take(0) =~= Seq::empty());
    while i < messages.len()
        invariant
            i <= messages.len(),
            out@ == decoded_all(messages@.take(i as int)),
        decreases messages.len() - i,
    {
        proof {
            assert(messages@.take(i + 1).drop_last() =~= messages@.take(i as int));
            assert(messages@.take(i + 1).last() == messages@[i as int]);
        }
        match decode_command(messages[i].0.as_str(), messages[i].1.as_str()) {
            Some(cmd) => out.push(cmd),
            None => {},
        }
        i += 1;
    }
    assert(messages@.take(i as int) =~= messages@);
    out
}

} // verus!
