//! The identity of a campaign.
//!
//! The id of a save can be reused by independent campaigns. The key of a campaign
//! therefore also covers the player's team and the earliest match of the save.

use crate::paths::{law_ledgers_are_separate, ledger_path};
use crate::text::{
    before, decimal, decimal_text, is_digit, joined, law_decimal_reads_back, lemma_before,
    lemma_digits_hold_no_other,
};
use vstd::prelude::*;

verus! {

/// A solo-rank match of the save.
pub struct SoloRankMatch {
    /// The match number; the smallest one is the earliest match.
    pub id: u64,
    /// The game version in which the match was played.
    pub version: String,
    /// The date and time of the match, as printed.
    pub date: String,
    /// The day of the match, counted so that a later day has a greater number.
    pub day: u64,
}

/// How a match is written into the identity of its campaign.
pub open spec fn match_text(row: SoloRankMatch) -> Seq<char> {
    decimal(row.id as nat) + ":"@ + row.version@ + ":"@ + row.date@
}

/// The first of the matches with the smallest id.
pub open spec fn earliest(rows: Seq<SoloRankMatch>) -> Option<SoloRankMatch>
    decreases rows.len(),
{
    if rows.len() == 0 {
        None
    } else {
        match earliest(rows.drop_last()) {
            Some(first) => if rows.last().id < first.id {
                Some(rows.last())
            } else {
                Some(first)
            },
            None => Some(rows.last()),
        }
    }
}

/// What the earliest match adds to the identity of a campaign.
pub open spec fn earliest_text(rows: Seq<SoloRankMatch>) -> Seq<char> {
    match earliest(rows) {
        Some(row) => match_text(row),
        None => "no-solo-match"@,
    }
}

/// The text that identifies a campaign.
pub open spec fn campaign_seed(save_id: nat, team_id: nat, first_match: Seq<char>) -> Seq<char> {
    decimal(save_id) + "|"@ + decimal(team_id) + "|"@ + first_match
}

/// The FNV-1a hash of bytes, of 64 bits.
pub open spec fn fnv1a(bytes: Seq<u8>) -> u64
    decreases bytes.len(),
{
    if bytes.len() == 0 {
        0xcbf29ce484222325
    } else {
        let mixed = fnv1a(bytes.drop_last()) ^ (bytes.last() as u64);
        ((mixed * 0x100000001b3) % 0x1_0000_0000_0000_0000) as u64
    }
}

/// A hexadecimal digit.
pub open spec fn hex_char(d: int) -> char {
    if d < 10 {
        ('0' as int + d) as char
    } else {
        ('a' as int + d - 10) as char
    }
}

/// The last digits of a number in hexadecimal, as many as asked for.
pub open spec fn hex(n: nat, width: nat) -> Seq<char>
    decreases width,
{
    if width == 0 {
        Seq::empty()
    } else {
        hex(n / 16, (width - 1) as nat).push(hex_char((n % 16) as int))
    }
}

/// The key of a campaign that a text identifies.
pub open spec fn key_of_seed(seed: Seq<char>) -> Seq<char> {
    "v2-"@ + hex(fnv1a(vstd::utf8::encode_utf8(seed)) as nat, 16)
}

/// The key of a campaign.
pub open spec fn campaign_key(save_id: nat, team_id: nat, rows: Seq<SoloRankMatch>) -> Seq<char> {
    key_of_seed(campaign_seed(save_id, team_id, earliest_text(rows)))
}

fn fnv1a_hash(bytes: &[u8]) -> (hash: u64)
    ensures
        hash == fnv1a(bytes@),
{
    let mut hash: u64 = 0xcbf29ce484222325;
    let mut i: usize = 0;
    while i < bytes.len()
        invariant
            i <= bytes@.len(),
            hash == fnv1a(bytes@.take(i as int)),
        decreases bytes@.len() - i,
    {
        assert(bytes@.take(i + 1).drop_last() == bytes@.take(i as int));
        hash = (hash ^ (bytes[i] as u64)).wrapping_mul(0x100000001b3);
        i += 1;
    }
    assert(bytes@.take(i as int) == bytes@);
    hash
}

fn hex_digit(d: u64) -> (c: char)
    requires
        d < 16,
    ensures
        c == hex_char(d as int),
{
    if d < 10 {
        (48u8 + d as u8) as char
    } else {
        (97u8 + (d as u8 - 10)) as char
    }
}

fn push_hex(s: &mut String, n: u64, width: u64)
    ensures
        final(s)@ == old(s)@ + hex(n as nat, width as nat),
    decreases width,
{
    if width > 0 {
        push_hex(s, n / 16, width - 1);
        s.push(hex_digit(n % 16));
    }
}

/// The earliest match: the first of those with the smallest id.
fn earliest_match(rows: &Vec<SoloRankMatch>) -> (first: Option<usize>)
    ensures
        match first {
            Some(i) => i < rows.len() && earliest(rows@) == Some(rows[i as int]),
            None => earliest(rows@) is None,
        },
{
    let mut first: Option<usize> = None;
    let mut i: usize = 0;
    while i < rows.len()
        invariant
            i <= rows.len(),
            match first {
                Some(k) => k < i && earliest(rows@.take(i as int)) == Some(rows[k as int]),
                None => earliest(rows@.take(i as int)) is None,
            },
        decreases rows.len() - i,
    {
        assert(rows@.take(i + 1).drop_last() == rows@.take(i as int));
        match first {
            Some(k) => {
                if rows[i].id < rows[k].id {
                    first = Some(i);
                }
            },
            None => {
                first = Some(i);
            },
        }
        i += 1;
    }
    assert(rows@.take(i as int) == rows@);
    first
}

/// The key that names a campaign's ledger: a hash of the save's id, the player's
/// team and the earliest match of the save.
pub fn campaign_ledger_key(save_id: u64, player_team_id: usize, matches: &Vec<SoloRankMatch>) -> (key:
    String)
    ensures
        key@ == campaign_key(save_id as nat, player_team_id as nat, matches@),
{
    let mut seed = decimal_text(save_id as u128);
    seed.append("|");
    let team = decimal_text(player_team_id as u128);
    seed.append(team.as_str());
    seed.append("|");
    match earliest_match(matches) {
        Some(i) => {
            let row = &matches[i];
            let id = decimal_text(row.id as u128);
            seed.append(id.as_str());
            seed.append(":");
            seed.append(row.version.as_str());
            seed.append(":");
            seed.append(row.date.as_str());
            assert(seed@ =~= campaign_seed(
                save_id as nat,
                player_team_id as nat,
                match_text(*row),
            ));
        },
        None => {
            seed.append("no-solo-match");
        },
    }
    let hash = fnv1a_hash(seed.as_str().as_bytes());
    let mut key = "v2-".to_string();
    push_hex(&mut key, hash, 16);
    key
}

/// A text in which digits, a bar and more text follow each other shows all three.
proof fn lemma_numbered_text(n: nat, rest: Seq<char>)
    ensures
        before(decimal(n) + "|"@ + rest, '|') == decimal(n),
        (decimal(n) + "|"@ + rest).skip(decimal(n).len() as int + 1) == rest,
{
    reveal_strlit("|");
    assert("|"@ =~= seq!['|']);
    law_decimal_reads_back(n);
    lemma_digits_hold_no_other(decimal(n), '|');
    lemma_before(decimal(n), rest, '|');
    assert((decimal(n) + "|"@ + rest).skip(decimal(n).len() as int + 1) =~= rest);
}

/// The text that identifies a campaign tells campaigns apart: it is the same only
/// for the same save id, the same team and the same earliest match.
pub proof fn law_seed_identifies_campaign(
    save_id: nat,
    team_id: nat,
    first_match: Seq<char>,
    other_save_id: nat,
    other_team_id: nat,
    other_first_match: Seq<char>,
)
    requires
        campaign_seed(save_id, team_id, first_match) == campaign_seed(
            other_save_id,
            other_team_id,
            other_first_match,
        ),
    ensures
        save_id == other_save_id,
        team_id == other_team_id,
        first_match == other_first_match,
{
    let tail = decimal(team_id) + "|"@ + first_match;
    let other_tail = decimal(other_team_id) + "|"@ + other_first_match;
    assert(campaign_seed(save_id, team_id, first_match) =~= decimal(save_id) + "|"@ + tail);
    assert(campaign_seed(other_save_id, other_team_id, other_first_match) =~= decimal(other_save_id)
        + "|"@ + other_tail);
    lemma_numbered_text(save_id, tail);
    lemma_numbered_text(other_save_id, other_tail);
    lemma_numbered_text(team_id, first_match);
    lemma_numbered_text(other_team_id, other_first_match);
    law_decimal_reads_back(save_id);
    law_decimal_reads_back(other_save_id);
    law_decimal_reads_back(team_id);
    law_decimal_reads_back(other_team_id);
}

/// A campaign with matches is never identified like one without.
pub proof fn law_matches_show_in_identity(rows: Seq<SoloRankMatch>)
    ensures
        earliest_text(rows) == "no-solo-match"@ <==> rows.len() == 0,
{
    law_earliest_is_first_of_the_smallest(rows);
    if rows.len() > 0 {
        let row = earliest(rows)->0;
        reveal_strlit("no-solo-match");
        law_decimal_reads_back(row.id as nat);
        assert(is_digit(decimal(row.id as nat)[0]));
        assert(match_text(row)[0] == decimal(row.id as nat)[0]);
        assert("no-solo-match"@[0] == 'n');
    }
}

/// The earliest match is one of the matches, none has a smaller id, and each before
/// it has a greater one.
pub proof fn law_earliest_is_first_of_the_smallest(rows: Seq<SoloRankMatch>)
    ensures
        earliest(rows) is None <==> rows.len() == 0,
        rows.len() > 0 ==> exists|k: int|
            #![trigger rows[k]]
            {
                &&& 0 <= k < rows.len()
                &&& earliest(rows) == Some(rows[k])
                &&& forall|i: int| 0 <= i < rows.len() ==> rows[k].id <= #[trigger] rows[i].id
                &&& forall|i: int| 0 <= i < k ==> rows[k].id < #[trigger] rows[i].id
            },
    decreases rows.len(),
{
    if rows.len() > 0 {
        let start = rows.drop_last();
        law_earliest_is_first_of_the_smallest(start);
        let last = rows.len() - 1;
        assert(rows[last] == rows.last());
        if start.len() > 0 {
            let k = choose|k: int|
                #![trigger start[k]]
                {
                    &&& 0 <= k < start.len()
                    &&& earliest(start) == Some(start[k])
                    &&& forall|i: int| 0 <= i < start.len() ==> start[k].id <= #[trigger] start[i].id
                    &&& forall|i: int| 0 <= i < k ==> start[k].id < #[trigger] start[i].id
                };
            assert forall|i: int| 0 <= i < start.len() implies rows[i] == start[i] by {}
            if rows.last().id < start[k].id {
                assert forall|i: int| 0 <= i < last implies rows[last].id < #[trigger] rows[i].id by {
                    assert(start[i] == rows[i]);
                }
            } else {
                assert(rows[k] == start[k]);
                assert forall|i: int| 0 <= i < rows.len() implies rows[k].id
                    <= #[trigger] rows[i].id by {
                    if i < last {
                        assert(start[i] == rows[i]);
                    }
                }
                assert forall|i: int| 0 <= i < k implies rows[k].id < #[trigger] rows[i].id by {
                    assert(start[i] == rows[i]);
                }
            }
        }
    }
}

/// A match that is not older than the earliest one does not change the key.
pub proof fn law_key_is_stable(
    save_id: nat,
    team_id: nat,
    rows: Seq<SoloRankMatch>,
    later: SoloRankMatch,
)
    requires
        earliest(rows) is Some,
        earliest(rows)->0.id <= later.id,
    ensures
        campaign_key(save_id, team_id, rows.push(later)) == campaign_key(save_id, team_id, rows),
{
    assert(rows.push(later).drop_last() == rows);
}

/// The digits of a number show the number.
proof fn lemma_hex_shows_number(a: nat, b: nat, width: nat)
    requires
        hex(a, width) == hex(b, width),
        a < vstd::arithmetic::power::pow(16, width),
        b < vstd::arithmetic::power::pow(16, width),
    ensures
        a == b,
    decreases width,
{
    reveal(vstd::arithmetic::power::pow);
    if width > 0 {
        let w = (width - 1) as nat;
        assert(hex(a, width).drop_last() == hex(a / 16, w));
        assert(hex(b, width).drop_last() == hex(b / 16, w));
        assert(hex(a, width).last() == hex_char((a % 16) as int));
        assert(hex(b, width).last() == hex_char((b % 16) as int));
        assert(a % 16 == b % 16);
        assert(vstd::arithmetic::power::pow(16, width) == 16 * vstd::arithmetic::power::pow(16, w));
        lemma_hex_shows_number(a / 16, b / 16, w);
    }
}

/// Two campaigns share a key only where the hashes of their identities are equal.
pub proof fn law_key_shows_hash(seed: Seq<char>, other: Seq<char>)
    ensures
        key_of_seed(seed) == key_of_seed(other) <==> fnv1a(vstd::utf8::encode_utf8(seed)) == fnv1a(
            vstd::utf8::encode_utf8(other),
        ),
{
    if key_of_seed(seed) == key_of_seed(other) {
        let a = fnv1a(vstd::utf8::encode_utf8(seed)) as nat;
        let b = fnv1a(vstd::utf8::encode_utf8(other)) as nat;
        let start = "v2-"@.len() as int;
        assert(hex(a, 16) =~= key_of_seed(seed).skip(start));
        assert(hex(b, 16) =~= key_of_seed(other).skip(start));
        assert(vstd::arithmetic::power::pow(16, 16) == 0x1_0000_0000_0000_0000) by {
            reveal_with_fuel(vstd::arithmetic::power::pow, 17);
        }
        lemma_hex_shows_number(a, b, 16);
    }
}

/// A hexadecimal text is as long as asked for and holds digits and small letters.
proof fn lemma_hex_chars(n: nat, width: nat)
    ensures
        hex(n, width).len() == width,
        forall|i: int|
            0 <= i < width ==> is_digit(#[trigger] hex(n, width)[i]) || ('a' <= hex(n, width)[i]
                && hex(n, width)[i] <= 'f'),
    decreases width,
{
    if width > 0 {
        let start = hex(n / 16, (width - 1) as nat);
        lemma_hex_chars(n / 16, (width - 1) as nat);
        assert forall|i: int| 0 <= i < width implies is_digit(#[trigger] hex(n, width)[i]) || ('a'
            <= hex(n, width)[i] && hex(n, width)[i] <= 'f') by {
            if i < width - 1 {
                assert(hex(n, width)[i] == start[i]);
            } else {
                assert(hex(n, width)[i] == hex_char((n % 16) as int));
            }
        }
    }
}

/// A key is short and can be the name of a folder and a cell of a table: it has
/// nineteen characters, each a digit, a small letter or a hyphen.
pub proof fn law_keys_are_plain_names(seed: Seq<char>)
    ensures
        key_of_seed(seed).len() == 19,
        forall|i: int|
            0 <= i < 19 ==> is_digit(#[trigger] key_of_seed(seed)[i]) || ('a' <= key_of_seed(
                seed,
            )[i] && key_of_seed(seed)[i] <= 'z') || key_of_seed(seed)[i] == '-',
{
    reveal_strlit("v2-");
    let n = fnv1a(vstd::utf8::encode_utf8(seed)) as nat;
    lemma_hex_chars(n, 16);
    assert forall|i: int| 0 <= i < 19 implies is_digit(#[trigger] key_of_seed(seed)[i]) || ('a'
        <= key_of_seed(seed)[i] && key_of_seed(seed)[i] <= 'z') || key_of_seed(seed)[i] == '-' by {
        if i >= 3 {
            assert(key_of_seed(seed)[i] == hex(n, 16)[i - 3]);
        }
    }
}

/// A campaign never gets the captures of another: as long as the hash of their
/// identities does not collide, campaigns that share a ledger have the same save id,
/// the same team and the same earliest match.
pub proof fn law_campaigns_share_no_ledger(
    dir: Seq<char>,
    save_id: nat,
    team_id: nat,
    rows: Seq<SoloRankMatch>,
    other_save_id: nat,
    other_team_id: nat,
    other_rows: Seq<SoloRankMatch>,
)
    requires
        ledger_path(dir, campaign_key(save_id, team_id, rows)) == ledger_path(
            dir,
            campaign_key(other_save_id, other_team_id, other_rows),
        ),
        !collides(
            campaign_seed(save_id, team_id, earliest_text(rows)),
            campaign_seed(other_save_id, other_team_id, earliest_text(other_rows)),
        ),
    ensures
        save_id == other_save_id,
        team_id == other_team_id,
        earliest_text(rows) == earliest_text(other_rows),
{
    let seed = campaign_seed(save_id, team_id, earliest_text(rows));
    let other = campaign_seed(other_save_id, other_team_id, earliest_text(other_rows));
    if key_of_seed(seed) != key_of_seed(other) {
        law_ledgers_are_separate(dir, key_of_seed(seed), key_of_seed(other));
    }
    law_key_shows_hash(seed, other);
    law_seed_identifies_campaign(
        save_id,
        team_id,
        earliest_text(rows),
        other_save_id,
        other_team_id,
        earliest_text(other_rows),
    );
}

/// Whether two texts are different and have the same hash.
pub open spec fn collides(one: Seq<char>, other: Seq<char>) -> bool {
    one != other && fnv1a(vstd::utf8::encode_utf8(one)) == fnv1a(vstd::utf8::encode_utf8(other))
}

/// A step of the hash loses nothing: numbers that differ differ after it.
proof fn lemma_step_loses_nothing(a: u64, b: u64)
    requires
        (a * 0x100000001b3) % 0x1_0000_0000_0000_0000 == (b * 0x100000001b3)
            % 0x1_0000_0000_0000_0000,
    ensures
        a == b,
{
    lemma_step_is_undone(a as int);
    lemma_step_is_undone(b as int);
}

/// The multiplication of a step of the hash is undone by another one.
proof fn lemma_step_is_undone(a: int)
    requires
        0 <= a < 0x1_0000_0000_0000_0000,
    ensures
        (((a * 0x100000001b3) % 0x1_0000_0000_0000_0000) * 0xce965057aff6957b)
            % 0x1_0000_0000_0000_0000 == a,
{
    let size = 0x1_0000_0000_0000_0000int;
    let inverse = 0xce965057aff6957bint;
    let turns = 0x100000001b3int * inverse / size;
    assert(0x100000001b3int * inverse == turns * size + 1);
    vstd::arithmetic::div_mod::lemma_mul_mod_noop_left(a * 0x100000001b3, inverse, size);
    assert((a * 0x100000001b3) * inverse == (a * turns) * size + a) by (nonlinear_arith)
        requires
            0x100000001b3int * inverse == turns * size + 1,
    ;
    vstd::arithmetic::div_mod::lemma_mod_multiples_vanish(a * turns, a, size);
    vstd::arithmetic::mul::lemma_mul_is_commutative(a * turns, size);
    vstd::arithmetic::div_mod::lemma_small_mod(a as nat, size as nat);
}

/// The hash of bytes with one more.
proof fn lemma_hash_step(bytes: Seq<u8>, last: u8)
    ensures
        fnv1a(bytes.push(last)) == (((fnv1a(bytes) ^ (last as u64)) * 0x100000001b3)
            % 0x1_0000_0000_0000_0000) as u64,
{
    assert(bytes.push(last).drop_last() == bytes);
}

/// Bytes that differ in one place have different hashes.
proof fn lemma_one_byte_changes_the_hash(start: Seq<u8>, one: u8, other: u8, rest: Seq<u8>)
    requires
        one != other,
    ensures
        fnv1a(start.push(one) + rest) != fnv1a(start.push(other) + rest),
    decreases rest.len(),
{
    if rest.len() == 0 {
        assert(start.push(one) + rest =~= start.push(one));
        assert(start.push(other) + rest =~= start.push(other));
        lemma_hash_step(start, one);
        lemma_hash_step(start, other);
        let hash = fnv1a(start);
        let a = one as u64;
        let b = other as u64;
        if fnv1a(start.push(one)) == fnv1a(start.push(other)) {
            lemma_step_loses_nothing(hash ^ a, hash ^ b);
            assert(a == b) by (bit_vector)
                requires
                    hash ^ a == hash ^ b,
            ;
        }
    } else {
        let shorter = rest.drop_last();
        lemma_one_byte_changes_the_hash(start, one, other, shorter);
        assert(start.push(one) + rest =~= (start.push(one) + shorter).push(rest.last()));
        assert(start.push(other) + rest =~= (start.push(other) + shorter).push(rest.last()));
        lemma_hash_step(start.push(one) + shorter, rest.last());
        lemma_hash_step(start.push(other) + shorter, rest.last());
        let a = fnv1a(start.push(one) + shorter);
        let b = fnv1a(start.push(other) + shorter);
        let last = rest.last() as u64;
        if fnv1a(start.push(one) + rest) == fnv1a(start.push(other) + rest) {
            lemma_step_loses_nothing(a ^ last, b ^ last);
            assert(a == b) by (bit_vector)
                requires
                    a ^ last == b ^ last,
            ;
        }
    }
}

/// Texts put together are encoded one after the other.
proof fn lemma_encoded_in_parts(a: Seq<char>, b: Seq<char>)
    ensures
        vstd::utf8::encode_utf8(a + b) == vstd::utf8::encode_utf8(a) + vstd::utf8::encode_utf8(b),
    decreases a.len(),
{
    if a.len() == 0 {
        assert(a + b =~= b);
    } else {
        lemma_encoded_in_parts(a.drop_first(), b);
        assert((a + b).drop_first() =~= a.drop_first() + b);
    }
}

/// Identities that differ in one ASCII character have different keys, and the hash never
/// collides on them.
pub proof fn law_one_character_changes_the_key(
    start: Seq<char>,
    one: char,
    other: char,
    rest: Seq<char>,
)
    requires
        one != other,
        one as int <= 127,
        other as int <= 127,
    ensures
        key_of_seed(start.push(one) + rest) != key_of_seed(start.push(other) + rest),
{
    lemma_encoded_with(start, one, rest);
    lemma_encoded_with(start, other, rest);
    lemma_one_byte_changes_the_hash(
        vstd::utf8::encode_utf8(start),
        one as u8,
        other as u8,
        vstd::utf8::encode_utf8(rest),
    );
    law_key_shows_hash(start.push(one) + rest, start.push(other) + rest);
}

/// An ASCII character inside a text is encoded as one byte.
proof fn lemma_encoded_with(start: Seq<char>, c: char, rest: Seq<char>)
    requires
        c as int <= 127,
    ensures
        vstd::utf8::encode_utf8(start.push(c) + rest) == vstd::utf8::encode_utf8(start).push(
            c as u8,
        ) + vstd::utf8::encode_utf8(rest),
{
    let single = seq![c];
    assert(start.push(c) =~= start + single);
    lemma_encoded_in_parts(start + single, rest);
    lemma_encoded_in_parts(start, single);
    vstd::utf8::is_ascii_chars_encode_utf8(single);
    assert(vstd::utf8::encode_utf8(single) =~= seq![c as u8]);
    assert(vstd::utf8::encode_utf8(start) + seq![c as u8] =~= vstd::utf8::encode_utf8(start).push(
        c as u8,
    ));
}

/// Whether two numbers have as many digits and differ in one of them.
pub open spec fn differ_in_one_digit(a: nat, b: nat) -> bool {
    &&& decimal(a).len() == decimal(b).len()
    &&& exists|k: int|
        0 <= k < decimal(a).len() && decimal(a)[k] != decimal(b)[k] && decimal(b)
            == #[trigger] decimal(a).update(k, decimal(b)[k])
}

/// Campaigns that differ in one digit of the team's id alone, or of the save's id alone,
/// never share a key or a ledger.
pub proof fn law_one_digit_tells_campaigns_apart(
    dir: Seq<char>,
    save_id: nat,
    other_save_id: nat,
    team_id: nat,
    other_team_id: nat,
    rows: Seq<SoloRankMatch>,
)
    requires
        (save_id == other_save_id && differ_in_one_digit(team_id, other_team_id)) || (team_id
            == other_team_id && differ_in_one_digit(save_id, other_save_id)),
    ensures
        campaign_key(save_id, team_id, rows) != campaign_key(other_save_id, other_team_id, rows),
        ledger_path(dir, campaign_key(save_id, team_id, rows)) != ledger_path(
            dir,
            campaign_key(other_save_id, other_team_id, rows),
        ),
{
    let seed = campaign_seed(save_id, team_id, earliest_text(rows));
    let other = campaign_seed(other_save_id, other_team_id, earliest_text(rows));
    if save_id == other_save_id && differ_in_one_digit(team_id, other_team_id) {
        let before = decimal(save_id) + "|"@;
        let after = "|"@ + earliest_text(rows);
        assert(seed =~= before + decimal(team_id) + after);
        assert(other =~= before + decimal(other_team_id) + after);
        lemma_one_digit_changes_the_key(before, team_id, other_team_id, after);
    } else {
        let before = Seq::<char>::empty();
        let after = "|"@ + decimal(team_id) + "|"@ + earliest_text(rows);
        assert(seed =~= before + decimal(save_id) + after);
        assert(other =~= before + decimal(other_save_id) + after);
        lemma_one_digit_changes_the_key(before, save_id, other_save_id, after);
    }
    law_ledgers_are_separate(dir, key_of_seed(seed), key_of_seed(other));
}

/// Identities that differ in one digit of a number have different keys.
proof fn lemma_one_digit_changes_the_key(
    before: Seq<char>,
    a: nat,
    b: nat,
    after: Seq<char>,
)
    requires
        differ_in_one_digit(a, b),
    ensures
        key_of_seed(before + decimal(a) + after) != key_of_seed(before + decimal(b) + after),
{
    let k = choose|k: int|
        0 <= k < decimal(a).len() && decimal(a)[k] != decimal(b)[k] && decimal(b)
            == #[trigger] decimal(a).update(k, decimal(b)[k]);
    let start = before + decimal(a).take(k);
    let rest = decimal(a).skip(k + 1) + after;
    assert(before + decimal(a) + after =~= start.push(decimal(a)[k]) + rest);
    assert(before + decimal(b) + after =~= start.push(decimal(b)[k]) + rest) by {
        assert(decimal(b).take(k) =~= decimal(a).take(k));
        assert(decimal(b).skip(k + 1) =~= decimal(a).skip(k + 1));
    }
    law_decimal_reads_back(a);
    law_decimal_reads_back(b);
    assert(is_digit(decimal(a)[k]) && is_digit(decimal(b)[k]));
    law_one_character_changes_the_key(start, decimal(a)[k], decimal(b)[k], rest);
}

/// A match is written as its id, its version and its date, with colons between them, and
/// a campaign is identified by its save, its team and its earliest match, with bars
/// between them.
pub proof fn law_identities_are_put_together(
    row: SoloRankMatch,
    save_id: nat,
    team_id: nat,
    first_match: Seq<char>,
    rows: Seq<SoloRankMatch>,
)
    ensures
        campaign_key(save_id, team_id, rows) == key_of_seed(
            joined(seq![decimal(save_id), decimal(team_id), earliest_text(rows)], seq!['|']),
        ),
        match_text(row) == joined(seq![decimal(row.id as nat), row.version@, row.date@], seq![':']),
        campaign_seed(save_id, team_id, first_match) == joined(
            seq![decimal(save_id), decimal(team_id), first_match],
            seq!['|'],
        ),
{
    reveal_strlit(":");
    reveal_strlit("|");
    assert(":"@ =~= seq![':']);
    assert("|"@ =~= seq!['|']);
    lemma_three_joined(decimal(row.id as nat), row.version@, row.date@, seq![':']);
    lemma_three_joined(decimal(save_id), decimal(team_id), first_match, seq!['|']);
    lemma_three_joined(decimal(save_id), decimal(team_id), earliest_text(rows), seq!['|']);
}

/// Three texts put together.
proof fn lemma_three_joined(a: Seq<char>, b: Seq<char>, c: Seq<char>, separator: Seq<char>)
    ensures
        joined(seq![a, b, c], separator) == a + separator + b + separator + c,
{
    assert(seq![a, b, c].drop_last() =~= seq![a, b]);
    assert(seq![a, b].drop_last() =~= seq![a]);
    reveal_with_fuel(joined, 3);
}

/// A version, with the date behind it, as the text of a match shows them.
proof fn lemma_version_shows(version: Seq<char>, date: Seq<char>)
    requires
        !version.contains(':'),
    ensures
        before(version + seq![':'] + date, ':') == version,
        (version + seq![':'] + date).skip(version.len() as int + 1) == date,
{
    lemma_before(version, date, ':');
    assert((version + seq![':'] + date).skip(version.len() as int + 1) =~= date);
}

/// The text of a match shows the match: matches that are written alike have the same id,
/// the same version and the same date, as long as the versions hold no colon.
pub proof fn law_match_text_shows_the_match(row: SoloRankMatch, other: SoloRankMatch)
    requires
        !row.version@.contains(':'),
        !other.version@.contains(':'),
        match_text(row) == match_text(other),
    ensures
        row.id == other.id,
        row.version@ == other.version@,
        row.date@ == other.date@,
{
    reveal_strlit(":");
    assert(":"@ =~= seq![':']);
    let id = decimal(row.id as nat);
    let other_id = decimal(other.id as nat);
    let rest = row.version@ + seq![':'] + row.date@;
    let other_rest = other.version@ + seq![':'] + other.date@;
    assert(match_text(row) =~= id + seq![':'] + rest);
    assert(match_text(other) =~= other_id + seq![':'] + other_rest);
    law_decimal_reads_back(row.id as nat);
    law_decimal_reads_back(other.id as nat);
    lemma_digits_hold_no_other(id, ':');
    lemma_digits_hold_no_other(other_id, ':');
    lemma_before(id, rest, ':');
    lemma_before(other_id, other_rest, ':');
    assert((id + seq![':'] + rest).skip(id.len() as int + 1) =~= rest);
    assert((other_id + seq![':'] + other_rest).skip(other_id.len() as int + 1) =~= other_rest);
    lemma_version_shows(row.version@, row.date@);
    lemma_version_shows(other.version@, other.date@);
}

/// Campaigns that share a ledger have earliest matches of the same id, the same version
/// and the same date, or no matches, as long as the hash of their identities does not
/// collide and the versions hold no colon.
pub proof fn law_shared_ledgers_have_one_first_match(
    dir: Seq<char>,
    save_id: nat,
    team_id: nat,
    rows: Seq<SoloRankMatch>,
    other_save_id: nat,
    other_team_id: nat,
    other_rows: Seq<SoloRankMatch>,
)
    requires
        ledger_path(dir, campaign_key(save_id, team_id, rows)) == ledger_path(
            dir,
            campaign_key(other_save_id, other_team_id, other_rows),
        ),
        !collides(
            campaign_seed(save_id, team_id, earliest_text(rows)),
            campaign_seed(other_save_id, other_team_id, earliest_text(other_rows)),
        ),
        forall|i: int| 0 <= i < rows.len() ==> !(#[trigger] rows[i]).version@.contains(':'),
        forall|i: int|
            0 <= i < other_rows.len() ==> !(#[trigger] other_rows[i]).version@.contains(':'),
    ensures
        save_id == other_save_id,
        team_id == other_team_id,
        rows.len() == 0 <==> other_rows.len() == 0,
        rows.len() > 0 ==> {
            &&& earliest(rows)->0.id == earliest(other_rows)->0.id
            &&& earliest(rows)->0.version@ == earliest(other_rows)->0.version@
            &&& earliest(rows)->0.date@ == earliest(other_rows)->0.date@
        },
{
    law_campaigns_share_no_ledger(
        dir,
        save_id,
        team_id,
        rows,
        other_save_id,
        other_team_id,
        other_rows,
    );
    law_matches_show_in_identity(rows);
    law_matches_show_in_identity(other_rows);
    law_earliest_is_first_of_the_smallest(rows);
    law_earliest_is_first_of_the_smallest(other_rows);
    if rows.len() > 0 {
        law_match_text_shows_the_match(earliest(rows)->0, earliest(other_rows)->0);
    }
}

/// Without matches a campaign is identified by words, and with matches by the match with
/// the smallest id, wherever it stands.
pub proof fn law_the_smallest_id_identifies(rows: Seq<SoloRankMatch>, k: int)
    requires
        0 <= k < rows.len(),
        forall|i: int| 0 <= i < rows.len() && i != k ==> rows[k].id < (#[trigger] rows[i]).id,
    ensures
        earliest_text(Seq::empty()) == "no-solo-match"@,
        earliest_text(rows) == match_text(rows[k]),
{
    law_earliest_is_first_of_the_smallest(rows);
    let j = choose|j: int|
        #![trigger rows[j]]
        {
            &&& 0 <= j < rows.len()
            &&& earliest(rows) == Some(rows[j])
            &&& forall|i: int| 0 <= i < rows.len() ==> rows[j].id <= #[trigger] rows[i].id
            &&& forall|i: int| 0 <= i < j ==> rows[j].id < #[trigger] rows[i].id
        };
    if j != k {
        assert(rows[j].id <= rows[k].id);
        assert(rows[k].id < rows[j].id);
    }
}

/// The order of the matches leaves the key as it is, as long as no two have one id.
pub proof fn law_match_order_leaves_the_key(
    save_id: nat,
    team_id: nat,
    rows: Seq<SoloRankMatch>,
    others: Seq<SoloRankMatch>,
)
    requires
        rows.to_multiset() == others.to_multiset(),
        forall|i: int, j: int|
            0 <= i < j < others.len() ==> (#[trigger] others[i]).id != (#[trigger] others[j]).id,
    ensures
        campaign_key(save_id, team_id, rows) == campaign_key(save_id, team_id, others),
{
    rows.to_multiset_ensures();
    others.to_multiset_ensures();
    law_earliest_is_first_of_the_smallest(rows);
    law_earliest_is_first_of_the_smallest(others);
    if rows.len() > 0 {
        let first = earliest(rows)->0;
        let other = earliest(others)->0;
        assert(rows.contains(first));
        assert(others.contains(other));
        assert(others.to_multiset().count(first) > 0);
        assert(rows.to_multiset().count(other) > 0);
        let i = choose|i: int| 0 <= i < others.len() && others[i] == first;
        let j = choose|j: int| 0 <= j < others.len() && others[j] == other;
        let k = choose|k: int| 0 <= k < rows.len() && rows[k] == other;
        assert(others[j].id <= others[i].id);
        assert(first.id <= rows[k].id);
        assert(i == j);
    }
}

/// The hash starts at the offset basis, and takes in each byte by an exclusive or and a
/// product with the prime, of which it keeps 64 bits.
pub proof fn law_the_hash_takes_in_each_byte(bytes: Seq<u8>, byte: u8)
    ensures
        fnv1a(Seq::empty()) == 14695981039346656037u64,
        fnv1a(bytes.push(byte)) == ((fnv1a(bytes) ^ (byte as u64)) as nat * 1099511628211nat) % (
        0x1_0000_0000_0000_0000 as nat),
{
    lemma_hash_step(bytes, byte);
}

/// Each digit of a hexadecimal text has its place value.
proof fn lemma_hex_places(n: nat, width: nat, i: int)
    requires
        0 <= i < width,
    ensures
        hex(n, width).len() == width,
        hex(n, width)[i] == hex_char(
            (n as int / vstd::arithmetic::power::pow(16, (width - 1 - i) as nat)) % 16,
        ),
    decreases width,
{
    lemma_hex_chars(n, width);
    reveal(vstd::arithmetic::power::pow);
    if i < width - 1 {
        let w = (width - 1) as nat;
        let place = (w - 1 - i) as nat;
        lemma_hex_places(n / 16, w, i);
        lemma_hex_chars(n / 16, w);
        assert(hex(n, width)[i] == hex(n / 16, w)[i]);
        vstd::arithmetic::power::lemma_pow_positive(16, place);
        vstd::arithmetic::div_mod::lemma_div_denominator(
            n as int,
            16,
            vstd::arithmetic::power::pow(16, place),
        );
        assert(vstd::arithmetic::power::pow(16, (place + 1) as nat) == 16
            * vstd::arithmetic::power::pow(16, place));
    } else {
        lemma_hex_chars(n / 16, (width - 1) as nat);
        assert(vstd::arithmetic::power::pow(16, 0) == 1);
    }
}

/// A key is `v2-` and the hash of the identity in sixteen hexadecimal digits.
pub proof fn law_keys_show_the_hash_in_digits(seed: Seq<char>, i: int)
    requires
        0 <= i < 16,
    ensures
        key_of_seed(seed).len() == 19,
        key_of_seed(seed).take(3) == seq!['v', '2', '-'],
        key_of_seed(seed)[3 + i] == "0123456789abcdef"@[(fnv1a(vstd::utf8::encode_utf8(seed)) as int
            / vstd::arithmetic::power::pow(16, (15 - i) as nat)) % 16],
{
    reveal_strlit("v2-");
    reveal_strlit("0123456789abcdef");
    let n = fnv1a(vstd::utf8::encode_utf8(seed)) as nat;
    lemma_hex_places(n, 16, i);
    lemma_hex_chars(n, 16);
    assert(key_of_seed(seed).take(3) =~= seq!['v', '2', '-']);
    assert(key_of_seed(seed)[3 + i] == hex(n, 16)[i]);
    let d = (n as int / vstd::arithmetic::power::pow(16, (15 - i) as nat)) % 16;
    assert(0 <= d < 16);
    assert("0123456789abcdef"@[d] == hex_char(d));
}

} // verus!
