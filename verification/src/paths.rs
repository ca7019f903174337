//! Reading the speaker back out of the name of an artifact.

use vstd::prelude::*;
use crate::ids::{GuildId, SpeakerId};
use crate::recording::{artifact_path, wav_suffix};
use crate::text::{
    all_digits, chars_of, decimal, decimal_value, digit_value, is_digit, lemma_decimal_round_trip,
};

verus! {

/// Position of the last `c` in `s`, or -1 where there is none.
pub open spec fn last_pos(s: Seq<char>, c: char) -> int
    decreases s.len(),
{
    if s.len() == 0 {
        -1
    } else if s.last() == c {
        s.len() - 1
    } else {
        last_pos(s.drop_last(), c)
    }
}

/// Position of the first `c` in `s`, or the length of `s` where there is
/// none.
pub open spec fn first_pos(s: Seq<char>, c: char) -> int
    decreases s.len(),
{
    if s.len() == 0 {
        0
    } else if s[0] == c {
        0
    } else {
        1 + first_pos(s.drop_first(), c)
    }
}

/// `s` without the slashes at its end.
pub open spec fn without_trailing_slashes(s: Seq<char>) -> Seq<char>
    decreases s.len(),
{
    if s.len() > 0 && s.last() == '/' {
        without_trailing_slashes(s.drop_last())
    } else {
        s
    }
}

/// The file name of a path: its last component, which is what follows the
/// last slash once the slashes at the end of the path are left aside.
pub open spec fn file_name_of(path: Seq<char>) -> Seq<char> {
    let p = without_trailing_slashes(path);
    p.skip(last_pos(p, '/') + 1)
}

/// The stem of a file name: what precedes its last dot, unless the name
/// has no dot or only starts with one.
pub open spec fn stem_of(name: Seq<char>) -> Seq<char> {
    if last_pos(name, '.') > 0 {
        name.take(last_pos(name, '.'))
    } else {
        name
    }
}

/// The second of the fields that underscores separate in `stem`, if there
/// are two.
pub open spec fn second_field(stem: Seq<char>) -> Option<Seq<char>> {
    let first = first_pos(stem, '_');
    if first == stem.len() {
        None
    } else {
        let rest = stem.skip(first + 1);
        Some(rest.take(first_pos(rest, '_')))
    }
}

/// The number that `s` denotes: decimal digits, after an optional plus
/// sign, whose value fits 64 bits.
pub open spec fn parsed_u64(s: Seq<char>) -> Option<u64> {
    let digits = if s.len() > 0 && s[0] == '+' {
        s.drop_first()
    } else {
        s
    };
    if digits.len() > 0 && all_digits(digits) && decimal_value(digits) <= u64::MAX {
        Some(decimal_value(digits) as u64)
    } else {
        None
    }
}

/// The speaker that the name of the artifact at `path` names: the second
/// field of the stem of the file name, read as a number.
pub open spec fn speaker_in_path(path: Seq<char>) -> Option<SpeakerId> {
    match second_field(stem_of(file_name_of(path))) {
        Some(field) => parsed_u64(field),
        None => None,
    }
}

proof fn lemma_last_pos_range(s: Seq<char>, c: char)
    ensures
        -1 <= last_pos(s, c) < s.len(),
    decreases s.len(),
{
    if s.len() > 0 && s.last() != c {
        lemma_last_pos_range(s.drop_last(), c);
    }
}

proof fn lemma_first_pos_range(s: Seq<char>, c: char)
    ensures
        0 <= first_pos(s, c) <= s.len(),
    decreases s.len(),
{
    if s.len() > 0 && s[0] != c {
        lemma_first_pos_range(s.drop_first(), c);
    }
}

proof fn lemma_first_pos_skip(s: Seq<char>, c: char, i: int)
    requires
        0 <= i <= s.len(),
        forall|k: int| 0 <= k < i ==> s[k] != c,
    ensures
        first_pos(s, c) == i + first_pos(s.skip(i), c),
    decreases i,
{
    if i == 0 {
        assert(s.skip(0) =~= s);
    } else {
        assert(s[0] != c);
        let t = s.drop_first();
        assert forall|k: int| 0 <= k < i - 1 implies t[k] != c by {
            assert(t[k] == s[k + 1]);
        }
        lemma_first_pos_skip(t, c, i - 1);
        assert(t.skip(i - 1) =~= s.skip(i));
    }
}

proof fn lemma_value_grows(s: Seq<char>, n: int)
    requires
        0 <= n <= s.len(),
    ensures
        decimal_value(s.take(n)) <= decimal_value(s),
    decreases s.len() - n,
{
    if n < s.len() {
        lemma_value_grows(s, n + 1);
        assert(s.take(n + 1).drop_last() =~= s.take(n));
    } else {
        assert(s.take(n) =~= s);
    }
}

/// Position of the last `c` in `v`.
fn last_index(v: &Vec<char>, c: char) -> (r: Option<usize>)
    ensures
        match r {
            Some(i) => last_pos(v@, c) == i && i < v@.len(),
            None => last_pos(v@, c) == -1,
        },
{
    proof {
        lemma_last_pos_range(v@, c);
    }
    let mut j: usize = v.len();
    assert(v@.take(j as int) =~= v@);
    while j > 0
        invariant
            0 <= j <= v@.len(),
            last_pos(v@, c) == last_pos(v@.take(j as int), c),
        decreases j,
    {
        assert(v@.take(j as int).drop_last() =~= v@.take(j - 1));
        if v[j - 1] == c {
            return Some(j - 1);
        }
        j = j - 1;
    }
    proof {
        assert(v@.take(v@.len() as int) =~= v@);
    }
    None
}

/// Position of the first `c` in `v`, or its length.
fn first_index(v: &Vec<char>, c: char) -> (r: usize)
    ensures
        r == first_pos(v@, c),
        r <= v@.len(),
{
    let mut i: usize = 0;
    while i < v.len()
        invariant
            0 <= i <= v@.len(),
            forall|k: int| 0 <= k < i ==> v@[k] != c,
        decreases v@.len() - i,
    {
        if v[i] == c {
            proof {
                lemma_first_pos_skip(v@, c, i as int);
            }
            return i;
        }
        i = i + 1;
    }
    proof {
        lemma_first_pos_skip(v@, c, i as int);
        assert(v@.skip(i as int).len() == 0);
    }
    i
}

/// The characters of `v` from `from` up to `to`.
fn slice_chars(v: &Vec<char>, from: usize, to: usize) -> (r: Vec<char>)
    requires
        from <= to <= v@.len(),
    ensures
        r@ == v@.subrange(from as int, to as int),
{
    let mut r: Vec<char> = Vec::new();
    let mut i: usize = from;
    while i < to
        invariant
            from <= i <= to <= v@.len(),
            r@ == v@.subrange(from as int, i as int),
        decreases to - i,
    {
        r.push(v[i]);
        assert(r@ =~= v@.subrange(from as int, i + 1));
        i = i + 1;
    }
    r
}

/// Reads `v` as a number.
pub fn parse_u64(v: &Vec<char>) -> (r: Option<u64>)
    ensures
        r == parsed_u64(v@),
{
    let start: usize = if v.len() > 0 && v[0] == '+' {
        1
    } else {
        0
    };
    let ghost digits = v@.skip(start as int);
    proof {
        if start == 1 {
            assert(v@.drop_first() =~= digits);
        } else {
            assert(v@ =~= digits);
        }
    }
    if v.len() == start {
        return None;
    }
    let mut value: u64 = 0;
    let mut i: usize = start;
    while i < v.len()
        invariant
            start <= i <= v@.len(),
            start <= 1,
            digits == v@.skip(start as int),
            digits.len() == v@.len() - start,
            parsed_u64(v@) == (if digits.len() > 0 && all_digits(digits) && decimal_value(digits)
                <= u64::MAX {
                Some(decimal_value(digits) as u64)
            } else {
                None
            }),
            all_digits(digits.take(i - start)),
            value == decimal_value(digits.take(i - start)),
        decreases v@.len() - i,
    {
        let c = v[i];
        let ghost seen = digits.take(i - start);
        let ghost next = digits.take(i - start + 1);
        proof {
            assert(next.drop_last() =~= seen);
            assert(next.last() == c);
            assert(digits[i - start] == c);
        }
        if !('0' <= c && c <= '9') {
            assert(!is_digit(digits[i - start]));
            assert(!all_digits(digits));
            return None;
        }
        let d: u64 = (c as u32 - '0' as u32) as u64;
        assert(d == digit_value(c));
        if value > (u64::MAX - d) / 10 {
            proof {
                assert(decimal_value(next) == value * 10 + d);
                assert(decimal_value(next) > u64::MAX);
                lemma_value_grows(digits, i - start + 1);
                assert(decimal_value(digits) > u64::MAX);
            }
            return None;
        }
        value = value * 10 + d;
        proof {
            assert forall|k: int| 0 <= k < next.len() implies is_digit(#[trigger] next[k]) by {
                if k < seen.len() {
                    assert(next[k] == seen[k]);
                }
            }
        }
        i = i + 1;
    }
    proof {
        assert(digits.take(i - start) =~= digits);
    }
    Some(value)
}

/// The speaker that the name of the artifact at `file_path` names, if it
/// names one. Slashes at the end of the path do not count.
pub fn extract_user_id_from_filename(file_path: &str) -> (r: Option<SpeakerId>)
    ensures
        r == speaker_in_path(file_path@),
{
    let whole = chars_of(file_path);
    let mut end: usize = whole.len();
    assert(whole@.take(end as int) =~= whole@);
    while end > 0 && whole[end - 1] == '/'
        invariant
            0 <= end <= whole@.len(),
            without_trailing_slashes(whole@) == without_trailing_slashes(whole@.take(end as int)),
        decreases end,
    {
        assert(whole@.take(end as int).drop_last() =~= whole@.take(end - 1));
        end = end - 1;
    }
    let path = slice_chars(&whole, 0, end);
    assert(path@ =~= whole@.take(end as int));
    assert(path@ == without_trailing_slashes(whole@));
    let path_len: usize = path.len();
    let name_start: usize = match last_index(&path, '/') {
        Some(i) => i + 1,
        None => 0,
    };
    let name = slice_chars(&path, name_start, path_len);
    assert(name@ =~= file_name_of(whole@));
    let stem_end: usize = match last_index(&name, '.') {
        Some(i) => if i > 0 {
            i
        } else {
            name.len()
        },
        None => name.len(),
    };
    let stem = slice_chars(&name, 0, stem_end);
    assert(stem@ =~= stem_of(name@));
    let first = first_index(&stem, '_');
    if first == stem.len() {
        return None;
    }
    let rest = slice_chars(&stem, first + 1, stem.len());
    assert(rest@ =~= stem@.skip(first + 1));
    let second = first_index(&rest, '_');
    let field = slice_chars(&rest, 0, second);
    assert(field@ =~= rest@.take(second as int));
    parse_u64(&field)
}

proof fn lemma_last_pos_concat(head: Seq<char>, c: char, tail: Seq<char>)
    requires
        forall|i: int| 0 <= i < tail.len() ==> tail[i] != c,
    ensures
        last_pos(head.push(c) + tail, c) == head.len(),
    decreases tail.len(),
{
    let s = head.push(c) + tail;
    if tail.len() == 0 {
        assert(s =~= head.push(c));
    } else {
        assert(s.last() == tail.last());
        assert(s.drop_last() =~= head.push(c) + tail.drop_last());
        lemma_last_pos_concat(head, c, tail.drop_last());
    }
}

proof fn lemma_first_pos_concat(head: Seq<char>, c: char, tail: Seq<char>)
    requires
        forall|i: int| 0 <= i < head.len() ==> head[i] != c,
    ensures
        first_pos(head.push(c) + tail, c) == head.len(),
{
    let s = head.push(c) + tail;
    assert forall|k: int| 0 <= k < head.len() implies s[k] != c by {
        assert(s[k] == head[k]);
    }
    lemma_first_pos_skip(s, c, head.len() as int);
    assert(s.skip(head.len() as int)[0] == c);
}

/// The file name of an artifact: scope, speaker and time stamp joined by
/// underscores, and the extension.
pub open spec fn artifact_stem(guild_id: GuildId, speaker: SpeakerId, stamp: Seq<char>) -> Seq<char> {
    decimal(guild_id as nat) + seq!['_'] + decimal(speaker as nat) + seq!['_'] + stamp
}

proof fn lemma_digits_are_plain(n: nat)
    ensures
        decimal(n).len() > 0,
        all_digits(decimal(n)),
        decimal_value(decimal(n)) == n,
        forall|i: int|
            0 <= i < decimal(n).len() ==> (#[trigger] decimal(n)[i]) != '/' && decimal(n)[i] != '_'
                && decimal(n)[i] != '.' && decimal(n)[i] != '+',
{
    lemma_decimal_round_trip(n);
    assert forall|i: int| 0 <= i < decimal(n).len() implies (#[trigger] decimal(n)[i]) != '/'
        && decimal(n)[i] != '_' && decimal(n)[i] != '.' && decimal(n)[i] != '+' by {
        assert(is_digit(decimal(n)[i]));
    }
}

proof fn lemma_file_name_of_artifact(
    dir: Seq<char>,
    guild_id: GuildId,
    speaker: SpeakerId,
    stamp: Seq<char>,
)
    requires
        forall|i: int| 0 <= i < stamp.len() ==> stamp[i] != '/',
    ensures
        file_name_of(artifact_path(dir, guild_id, speaker, stamp)) == artifact_stem(
            guild_id,
            speaker,
            stamp,
        ) + wav_suffix(),
{
    let g = decimal(guild_id as nat);
    let sp = decimal(speaker as nat);
    lemma_digits_are_plain(guild_id as nat);
    lemma_digits_are_plain(speaker as nat);
    let path = artifact_path(dir, guild_id, speaker, stamp);
    let stem = artifact_stem(guild_id, speaker, stamp);
    let name = stem + wav_suffix();
    assert(path =~= dir.push('/') + name);
    assert forall|i: int| 0 <= i < name.len() implies name[i] != '/' by {
        if i < g.len() {
            assert(name[i] == g[i]);
        } else if i == g.len() {
            assert(name[i] == '_');
        } else if i < g.len() + 1 + sp.len() {
            assert(name[i] == sp[i - g.len() - 1]);
        } else if i == g.len() + 1 + sp.len() {
            assert(name[i] == '_');
        } else if i < stem.len() {
            assert(name[i] == stamp[i - g.len() - sp.len() - 2]);
        } else {
            assert(name[i] == wav_suffix()[i - stem.len()]);
        }
    }
    lemma_last_pos_concat(dir, '/', name);
    assert(path.last() == 'v');
    assert(without_trailing_slashes(path) == path);
    assert(path.skip(dir.len() as int + 1) =~= name);
}

proof fn lemma_stem_of_artifact(stem: Seq<char>)
    requires
        stem.len() > 0,
    ensures
        stem_of(stem + wav_suffix()) == stem,
{
    let ext = seq!['w', 'a', 'v'];
    let name = stem + wav_suffix();
    assert(name =~= stem.push('.') + ext);
    lemma_last_pos_concat(stem, '.', ext);
    assert(name.take(stem.len() as int) =~= stem);
}

proof fn lemma_second_field_of_stem(guild_id: GuildId, speaker: SpeakerId, stamp: Seq<char>)
    ensures
        second_field(artifact_stem(guild_id, speaker, stamp)) == Some(decimal(speaker as nat)),
{
    let g = decimal(guild_id as nat);
    let sp = decimal(speaker as nat);
    lemma_digits_are_plain(guild_id as nat);
    lemma_digits_are_plain(speaker as nat);
    let stem = artifact_stem(guild_id, speaker, stamp);
    let after_guild = sp + seq!['_'] + stamp;
    assert(stem =~= g.push('_') + after_guild);
    lemma_first_pos_concat(g, '_', after_guild);
    let rest = stem.skip(g.len() as int + 1);
    assert(rest =~= sp.push('_') + stamp);
    lemma_first_pos_concat(sp, '_', stamp);
    assert(rest.take(sp.len() as int) =~= sp);
}

/// The name of an artifact names its speaker: what is read back out of
/// the name that was built for a speaker is that speaker, for every
/// directory and scope and every time stamp without a slash.
pub proof fn lemma_artifact_name_names_speaker(
    dir: Seq<char>,
    guild_id: GuildId,
    speaker: SpeakerId,
    stamp: Seq<char>,
)
    requires
        forall|i: int| 0 <= i < stamp.len() ==> stamp[i] != '/',
    ensures
        speaker_in_path(artifact_path(dir, guild_id, speaker, stamp)) == Some(speaker),
{
    let stem = artifact_stem(guild_id, speaker, stamp);
    lemma_digits_are_plain(guild_id as nat);
    lemma_digits_are_plain(speaker as nat);
    lemma_file_name_of_artifact(dir, guild_id, speaker, stamp);
    lemma_stem_of_artifact(stem);
    lemma_second_field_of_stem(guild_id, speaker, stamp);
    let sp = decimal(speaker as nat);
    assert(sp[0] != '+');
}

} // verus!
