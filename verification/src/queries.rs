//! The SQL text of the word listing: the page of words, newest change
//! first, optionally only those of one status.

use vstd::prelude::*;
use crate::text::push_char;

verus! {

/// The decimal digit of a value below 10.
pub open spec fn digit_char(d: nat) -> char {
    (48 + d) as char
}

/// The decimal digits of `n`, without leading zeros.
pub open spec fn digits_of(n: nat) -> Seq<char>
    decreases n,
{
    if n < 10 {
        seq![digit_char(n)]
    } else {
        digits_of(n / 10).push(digit_char(n % 10))
    }
}

/// `n` in decimal, with a minus sign when negative, as `{}` formats it.
pub open spec fn decimal(n: int) -> Seq<char> {
    if n < 0 {
        seq!['-'] + digits_of((-n) as nat)
    } else {
        digits_of(n as nat)
    }
}

/// Appends the decimal digits of `n`.
fn push_digits(s: &mut String, n: u64)
    ensures
        final(s)@ == old(s)@ + digits_of(n as nat),
    decreases n,
{
    if n >= 10 {
        push_digits(s, n / 10);
    }
    let d = (n % 10) as u8;
    push_char(s, (48 + d) as char);
    assert(old(s)@ + digits_of(n as nat) =~= (if n >= 10 { old(s)@ + digits_of((n / 10) as nat) } else { old(s)@ }).push(digit_char((n % 10) as nat)));
}

/// Appends `n` in decimal.
pub fn push_decimal(s: &mut String, n: i32)
    ensures
        final(s)@ == old(s)@ + decimal(n as int),
{
    if n < 0 {
        push_char(s, '-');
        let m: u64 = (0 - (n as i64)) as u64;
        push_digits(s, m);
        assert(old(s)@ + decimal(n as int) =~= old(s)@.push('-') + digits_of(m as nat));
    } else {
        push_digits(s, n as u64);
    }
}

/// The columns of a word row, and the table.
pub open spec fn word_select() -> Seq<char> {
    "SELECT id, word, phonetic, phonetic_audio_url, status, created_at, updated_at FROM words"@
}

/// The SQL that lists a page of words, newest change first: those with
/// status `status` when one is given (the name is put between quotes as it
/// stands), `limit` of them after skipping `offset`.
pub open spec fn list_query(status: Option<Seq<char>>, offset: int, limit: int) -> Seq<char> {
    let filter = match status {
        Some(s) => " WHERE status = '"@ + s + "'"@,
        None => Seq::empty(),
    };
    word_select() + filter + " ORDER BY updated_at DESC LIMIT "@ + decimal(limit) + " OFFSET "@
        + decimal(offset)
}

/// The SQL that lists a page of words, newest change first, optionally only
/// those of one status.
pub fn list_words_query(status: Option<&str>, offset: i32, limit: i32) -> (r: String)
    ensures
        r@ == list_query(
            match status {
                Some(s) => Some(s@),
                None => None,
            },
            offset as int,
            limit as int,
        ),
{
    let mut q = "SELECT id, word, phonetic, phonetic_audio_url, status, created_at, updated_at FROM words".to_owned();
    match status {
        Some(s) => {
            q.append(" WHERE status = '");
            q.append(s);
            q.append("'");
        },
        None => {},
    }
    q.append(" ORDER BY updated_at DESC LIMIT ");
    push_decimal(&mut q, limit);
    q.append(" OFFSET ");
    push_decimal(&mut q, offset);
    let ghost filter = match status {
        Some(s) => " WHERE status = '"@ + s@ + "'"@,
        None => Seq::<char>::empty(),
    };
    assert(q@ =~= word_select() + filter + " ORDER BY updated_at DESC LIMIT "@ + decimal(limit as int) + " OFFSET "@ + decimal(offset as int));
    q
}

} // verus!
