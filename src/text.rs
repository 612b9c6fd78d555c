use vstd::prelude::*;
use crate::snapshot::MemoryValues;

verus! {

pub open spec fn digit_char(d: nat) -> char {
    if d == 0 { '0' }
    else if d == 1 { '1' }
    else if d == 2 { '2' }
    else if d == 3 { '3' }
    else if d == 4 { '4' }
    else if d == 5 { '5' }
    else if d == 6 { '6' }
    else if d == 7 { '7' }
    else if d == 8 { '8' }
    else { '9' }
}

/// The decimal digits of `n`, without leading zeros.
pub open spec fn decimal_digits(n: nat) -> Seq<char>
    decreases n,
{
    if n < 10 {
        seq![digit_char(n)]
    } else {
        decimal_digits(n / 10).push(digit_char(n % 10))
    }
}

/// The decimal text of `v`, with a leading minus sign when it is negative.
pub open spec fn decimal_text(v: int) -> Seq<char> {
    if v < 0 {
        seq!['-'] + decimal_digits((-v) as nat)
    } else {
        decimal_digits(v as nat)
    }
}

/// Relies on itoa::Buffer::format: it prints an integer as its decimal text,
/// with a minus sign for negative values.
#[verifier::external_body]
fn decimal_string(v: i128) -> (r: String)
    ensures
        r@ == decimal_text(v as int),
{
    let mut buffer = itoa::Buffer::new();
    buffer.format(v).to_string()
}

/// A named value shown to the user for observation.
pub struct LiveVariable {
    pub name: &'static str,
    pub text: String,
}

/// A live variable that shows an integer in decimal.
pub fn integer_variable(name: &'static str, v: i128) -> (r: LiveVariable)
    ensures
        r.name == name,
        r.text@ == decimal_text(v as int),
{
    LiveVariable { name, text: decimal_string(v) }
}

/// The integer values of a snapshot as live variables: the room id, and with
/// the timing buffer the end-of-level flag and the boss's health.
pub fn snapshot_variables(values: &MemoryValues, has_buffer: bool) -> (r: Vec<LiveVariable>)
    ensures
        r@.len() == (if has_buffer { 3int } else { 1int }),
        r@[0].name == "Room ID" && r@[0].text@ == decimal_text(values.room_id.current as int),
        has_buffer ==> r@[1].name == "End Fade Exists" && r@[1].text@ == decimal_text(
            values.end_of_level.current as int,
        ),
        has_buffer ==> r@[2].name == "Boss HP" && r@[2].text@ == decimal_text(values.boss_hp.current as int),
{
    let mut r: Vec<LiveVariable> = Vec::new();
    r.push(integer_variable("Room ID", values.room_id.current as i128));
    if has_buffer {
        r.push(integer_variable("End Fade Exists", values.end_of_level.current as i128));
        r.push(integer_variable("Boss HP", values.boss_hp.current as i128));
    }
    r
}

} // verus!
