//! Project ids: the time in milliseconds and a running number, both in
//! hexadecimal.

use crate::clock;
use crate::clock::now_unix_millis;
use crate::text;
use crate::text::push_numeral;
use std::time::SystemTime;
use vstd::prelude::*;

verus! {

/// The id for a time in milliseconds and a running number.
pub open spec fn project_id_text(millis: u64, number: u64) -> Seq<char> {
    "project_"@ + text::numeral(millis as nat, 16) + seq!['_'] + text::numeral(number as nat, 16)
}

/// Writes the id for a time in milliseconds and a running number.
pub fn project_id(millis: u64, number: u64) -> (id: String)
    ensures
        id@ == project_id_text(millis, number),
{
    proof {
        reveal_strlit("_");
    }
    let mut id: String = "project_".to_owned();
    push_numeral(&mut id, millis, 16);
    id.append("_");
    push_numeral(&mut id, number, 16);
    assert(id@ =~= project_id_text(millis, number));
    id
}

/// The running number that follows: after the largest one comes zero.
pub open spec fn next_number(number: u64) -> u64 {
    if number < u64::MAX {
        (number + 1) as u64
    } else {
        0
    }
}

/// A new id from the current time and the running number, which moves on.
pub fn unique_id(counter: &mut u64) -> (id: String)
    ensures
        exists|time: SystemTime|
            id@ == project_id_text(#[trigger] clock::millis_at(time), *old(counter)),
        *final(counter) == next_number(*old(counter)),
{
    let number: u64 = *counter;
    *counter = number.wrapping_add(1);
    project_id(now_unix_millis(), number)
}

proof fn lemma_no_underscore(n: nat, i: int)
    requires
        0 <= i < text::numeral(n, 16).len(),
    ensures
        text::numeral(n, 16)[i] != '_',
{
    text::lemma_numeral_digits(n, 16, i);
    let d = choose|d: int|
        0 <= d < 16 && text::numeral(n, 16)[i] == #[trigger] text::digit_char(d);
    text::lemma_digit_char_order(d, d);
}

/// The running number after so many ids.
pub open spec fn number_after(start: u64, steps: nat) -> u64
    decreases steps,
{
    if steps == 0 {
        start
    } else {
        next_number(number_after(start, (steps - 1) as nat))
    }
}

proof fn lemma_number_after(start: u64, steps: nat)
    ensures
        number_after(start, steps) == (start + steps) % 0x1_0000_0000_0000_0000,
    decreases steps,
{
    if steps > 0 {
        lemma_number_after(start, (steps - 1) as nat);
    }
}

/// Of all the ids that are made with one running number, up to as many as there
/// are running numbers, no two are the same, whatever the clock showed: within
/// one millisecond, and also where the clock moved back.
pub proof fn law_ids_of_one_counter_differ(
    start: u64,
    earlier: nat,
    later: nat,
    millis1: u64,
    millis2: u64,
)
    requires
        earlier < later < 0x1_0000_0000_0000_0000,
    ensures
        project_id_text(millis1, number_after(start, earlier)) != project_id_text(
            millis2,
            number_after(start, later),
        ),
{
    lemma_number_after(start, earlier);
    lemma_number_after(start, later);
    law_ids_are_unique(
        millis1,
        number_after(start, earlier),
        millis2,
        number_after(start, later),
    );
}

/// Two ids are the same only if both the time and the running number are: ids
/// with different running numbers differ, also within one millisecond, and an
/// id differs from the one that follows it.
pub proof fn law_ids_are_unique(millis1: u64, number1: u64, millis2: u64, number2: u64)
    ensures
        project_id_text(millis1, number1) == project_id_text(millis2, number2) <==> millis1
            == millis2 && number1 == number2,
        next_number(number1) != number1,
{
    let a = project_id_text(millis1, number1);
    let b = project_id_text(millis2, number2);
    if a == b {
        let prefix = "project_"@;
        let p = prefix.len() as int;
        let m1 = text::numeral(millis1 as nat, 16);
        let m2 = text::numeral(millis2 as nat, 16);
        let n1 = text::numeral(number1 as nat, 16);
        let n2 = text::numeral(number2 as nat, 16);
        let l1 = m1.len() as int;
        let l2 = m2.len() as int;
        assert(a[p + l1] == '_');
        assert(b[p + l2] == '_');
        if l1 < l2 {
            assert(b[p + l1] == m2[l1]);
            lemma_no_underscore(millis2 as nat, l1);
        } else if l2 < l1 {
            assert(a[p + l2] == m1[l2]);
            lemma_no_underscore(millis1 as nat, l2);
        }
        assert(a.subrange(p, p + l1) =~= m1);
        assert(b.subrange(p, p + l2) =~= m2);
        assert(a.skip(p + l1 + 1) =~= n1);
        assert(b.skip(p + l2 + 1) =~= n2);
        text::lemma_numeral_injective(millis1 as nat, millis2 as nat, 16);
        text::lemma_numeral_injective(number1 as nat, number2 as nat, 16);
    }
}

/// An id is `project_`, the time in hexadecimal, an underscore, and the running
/// number in hexadecimal.
pub proof fn law_project_id_parts(millis: u64, number: u64)
    ensures
        project_id_text(millis, number) == "project_"@ + text::numeral(millis as nat, 16) + "_"@
            + text::numeral(number as nat, 16),
{
    reveal_strlit("_");
    assert("_"@ =~= seq!['_']);
}

/// The running number goes up by one, and from the highest to zero.
pub proof fn law_running_number(number: u64)
    ensures
        next_number(number) == (number + 1) % 0x1_0000_0000_0000_0000,
{
}

} // verus!
