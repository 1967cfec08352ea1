//! Password entries: finding a user's stored hash, and telling whether a password fits it.

use crate::bytes::same_bytes;
use crate::text;
use crate::text::{chars_of, same_text, split_once};
use vstd::prelude::*;
use vstd::string::*;
use vstd::utf8::*;

verus! {

/// A line without the carriage return at its end, if there is one.
pub open spec fn without_return(s: Seq<char>) -> Seq<char> {
    if s.len() > 0 && s.last() == '\r' {
        s.drop_last()
    } else {
        s
    }
}

/// The lines of a text. A line ends at a newline, which may have a carriage return in
/// front of it; the newline behind the last line may be missing.
pub open spec fn lines(s: Seq<char>) -> Seq<Seq<char>>
    decreases s.len(),
{
    if s.len() == 0 {
        Seq::empty()
    } else {
        proof {
            text::find_char_is_first(s, '\n');
        }
        match text::cut(s, '\n') {
            Some((line, rest)) => seq![without_return(line)] + lines(rest),
            None => seq![s],
        }
    }
}

/// The first field of a line.
pub open spec fn first_field(line: Seq<char>) -> Seq<char> {
    match text::cut(line, ':') {
        Some((name, _)) => name,
        None => line,
    }
}

/// The second field of a line, if it has one.
pub open spec fn second_field(line: Seq<char>) -> Option<Seq<char>> {
    match text::cut(line, ':') {
        Some((_, rest)) => Some(first_field(rest)),
        None => None,
    }
}

/// The second field of the first of these lines whose first field is `user`.
pub open spec fn hash_in(list: Seq<Seq<char>>, user: Seq<char>) -> Option<Seq<char>>
    decreases list.len(),
{
    if list.len() == 0 {
        None
    } else if first_field(list[0]) == user {
        second_field(list[0])
    } else {
        hash_in(list.drop_first(), user)
    }
}

/// The first field of a line.
fn field_of(line: &str) -> (field: &str)
    ensures
        field@ == first_field(line@),
{
    match split_once(line, ':') {
        Some((name, _)) => name,
        None => line,
    }
}

/// A line without the carriage return at its end, if there is one.
fn strip_return(line: &str) -> (s: &str)
    ensures
        s@ == without_return(line@),
{
    let chars = chars_of(line);
    let n: usize = chars.len();
    if n > 0 && chars[n - 1] == '\r' {
        let s = line.substring_char(0, n - 1);
        assert(s@ =~= line@.drop_last());
        s
    } else {
        line
    }
}

/// What a password file says of `user`: the hash in the entry, if there is an entry and it
/// has a hash.
pub fn stored_hash(contents: &str, user: &str) -> (hash: Option<String>)
    ensures
        match hash {
            Some(h) => hash_in(lines(contents@), user@) == Some(h@),
            None => hash_in(lines(contents@), user@) is None,
        },
{
    let mut rest: &str = contents;
    loop
        invariant
            hash_in(lines(rest@), user@) == hash_in(lines(contents@), user@),
        decreases rest@.len(),
    {
        let ghost now = rest@;
        proof {
            text::find_char_is_first(now, '\n');
        }
        let (line, more) = match split_once(rest, '\n') {
            Some((line, more)) => (strip_return(line), Some(more)),
            None => (rest, None),
        };
        if more.is_none() && line.is_empty() {
            return None;
        }
        proof {
            let list = lines(now);
            assert(list.len() > 0 && list[0] == line@);
            match more {
                Some(m) => {
                    assert(list.drop_first() =~= lines(m@));
                },
                None => {
                    assert(list.drop_first() =~= Seq::empty());
                    assert(hash_in(list.drop_first(), user@) is None);
                },
            }
        }
        if same_text(field_of(line), user) {
            return match split_once(line, ':') {
                Some((_, after)) => Some(field_of(after).to_owned()),
                None => None,
            };
        }
        match more {
            Some(m) => {
                rest = m;
            },
            None => return None,
        }
    }
}

/// Whether a stored hash can admit anyone: it is not empty, nor marked as locked (`!`) or
/// disabled (`*`).
pub open spec fn can_admit(hash: Seq<char>) -> bool {
    hash.len() > 0 && hash[0] != '!' && hash[0] != '*'
}

/// The hash to hash a password with, if the password can be admitted at all: the stored
/// one, where it can admit anyone and neither it nor the password holds a zero.
pub open spec fn hash_to_try(stored: Option<Seq<char>>, password: Seq<u8>) -> Option<Seq<char>> {
    match stored {
        Some(hash) => if can_admit(hash) && !password.contains(0) && !encode_utf8(hash).contains(
            0,
        ) {
            Some(hash)
        } else {
            None
        },
        None => None,
    }
}

/// Whether bytes hold a zero.
fn holds_zero(buf: &[u8]) -> (b: bool)
    ensures
        b == buf@.contains(0),
{
    let mut i: usize = 0;
    while i < buf.len()
        invariant
            i <= buf@.len(),
            forall|k: int| 0 <= k < i ==> buf@[k] != 0,
        decreases buf@.len() - i,
    {
        if buf[i] == 0 {
            return true;
        }
        i = i + 1;
    }
    false
}

/// Looks up what `password` of `user` has to be hashed with, in the contents of a password
/// file. Without contents, and for a password that cannot be admitted, there is nothing.
pub fn hash_for(contents: Option<&str>, user: &str, password: &[u8]) -> (hash: Option<String>)
    ensures
        ({
            let expected = match contents {
                Some(s) => hash_to_try(hash_in(lines(s@), user@), password@),
                None => None,
            };
            match hash {
                Some(h) => expected == Some(h@),
                None => expected is None,
            }
        }),
{
    let contents = match contents {
        Some(s) => s,
        None => return None,
    };
    let hash = match stored_hash(contents, user) {
        Some(h) => h,
        None => return None,
    };
    let chars = chars_of(hash.as_str());
    if chars.is_empty() || chars[0] == '!' || chars[0] == '*' {
        return None;
    }
    if holds_zero(password) || holds_zero(hash.as_str().as_bytes()) {
        return None;
    }
    Some(hash)
}

/// Whether a password is admitted, given the hash that it was hashed with and what came
/// out, if anything: the two are the same.
pub fn admits(hash: &str, computed: Option<&[u8]>) -> (b: bool)
    ensures
        b == (computed matches Some(c) && c@ == encode_utf8(hash@)),
{
    match computed {
        Some(c) => same_bytes(c, hash.as_bytes()),
        None => false,
    }
}

/// A locked, disabled or empty entry admits no password.
pub proof fn locked_entries_admit_nobody(hash: Seq<char>, password: Seq<u8>)
    requires
        hash.len() == 0 || hash[0] == '!' || hash[0] == '*',
    ensures
        hash_to_try(Some(hash), password) is None,
{
}

/// Lines end at `\n`, and a `\r` in front of it belongs to the end; what comes behind the last
/// end is a line too, as it stands, unless it is empty.
pub proof fn lines_mean(line: Seq<char>, rest: Seq<char>)
    requires
        !line.contains('\n'),
    ensures
        lines(line + seq!['\n'] + rest) == seq![without_return(line)] + lines(rest),
        lines(line) == if line.len() == 0 {
            Seq::empty()
        } else {
            seq![line]
        },
        without_return(line.push('\r')) == line,
        line.len() > 0 && line.last() != '\r' ==> without_return(line) == line,
        without_return(Seq::empty()) == Seq::<char>::empty(),
{
    let all = line + seq!['\n'] + rest;
    text::cut_means(all, '\n', line, rest);
    text::cut_means(line, '\n', line, rest);
    assert(line.push('\r').drop_last() =~= line);
}

/// The fields of a line stand between `:`. The first is the name, and the second the hash;
/// more may follow, and a line without `:` has no second.
pub proof fn fields_mean(name: Seq<char>, hash: Seq<char>, rest: Seq<char>)
    requires
        !name.contains(':'),
        !hash.contains(':'),
    ensures
        first_field(name) == name,
        first_field(name + seq![':'] + rest) == name,
        second_field(name) is None,
        second_field(name + seq![':'] + hash) == Some(hash),
        second_field(name + seq![':'] + (hash + seq![':'] + rest)) == Some(hash),
{
    text::cut_means(name, ':', name, rest);
    text::cut_means(name + seq![':'] + rest, ':', name, rest);
    text::cut_means(name + seq![':'] + hash, ':', name, hash);
    text::cut_means(hash, ':', hash, rest);
    let more = hash + seq![':'] + rest;
    text::cut_means(name + seq![':'] + more, ':', name, more);
    text::cut_means(more, ':', hash, rest);
}

/// A user's hash is in the first line with the user's name, and nowhere else.
pub proof fn first_entry_counts(
    before: Seq<Seq<char>>,
    line: Seq<char>,
    after: Seq<Seq<char>>,
    user: Seq<char>,
)
    requires
        forall|i: int| 0 <= i < before.len() ==> first_field(#[trigger] before[i]) != user,
        first_field(line) == user,
    ensures
        hash_in(before + (seq![line] + after), user) == second_field(line),
        hash_in(before, user) is None,
    decreases before.len(),
{
    let all = before + (seq![line] + after);
    if before.len() == 0 {
        assert(all[0] == line);
    } else {
        let rest = before.drop_first();
        assert(all[0] == before[0]);
        assert(first_field(before[0]) != user);
        assert forall|i: int| 0 <= i < rest.len() implies first_field(#[trigger] rest[i])
            != user by {
            assert(rest[i] == before[i + 1]);
        }
        first_entry_counts(rest, line, after, user);
        assert(all.drop_first() =~= rest + (seq![line] + after));
    }
}

/// A hash is tried exactly if it is there, is not empty, does not begin with `!` or `*`, and
/// neither it nor the password holds a zero byte; and it is tried as it is.
pub proof fn hashes_are_tried_as_they_are(hash: Seq<char>, password: Seq<u8>, other: Seq<char>)
    ensures
        hash_to_try(None, password) is None,
        hash_to_try(Some(hash), password) == Some(other) ==> other == hash,
        hash_to_try(Some(hash), password) is Some <==> {
            &&& hash.len() > 0
            &&& hash[0] != '!'
            &&& hash[0] != '*'
            &&& forall|i: int| 0 <= i < password.len() ==> #[trigger] password[i] != 0
            &&& forall|i: int| 0 <= i < encode_utf8(hash).len() ==> #[trigger] encode_utf8(hash)[i]
                != 0
        },
{
}

/// A password fits exactly if the hash that was computed of it is there and is the stored
/// one, byte for byte.
pub proof fn only_the_stored_hash_admits(hash: &str, computed: &[u8], b: bool, none: bool)
    requires
        call_ensures(admits, (hash, Some(computed)), b),
        call_ensures(admits, (hash, None), none),
    ensures
        b <==> computed@ == encode_utf8(hash@),
        !none,
{
}

} // verus!
