//! Room and player identifiers, and the shareable six-character room code.

use vstd::prelude::*;
use crate::text::{chars_of, decimal, string_from_chars, u64_to_decimal};

verus! {

/// Room-code alphabet: A-Z without I and O, then 2-9 (32 characters).
pub open spec fn alphabet() -> Seq<char> {
    seq![
        'A', 'B', 'C', 'D', 'E', 'F', 'G', 'H', 'J', 'K', 'L', 'M', 'N', 'P', 'Q', 'R',
        'S', 'T', 'U', 'V', 'W', 'X', 'Y', 'Z', '2', '3', '4', '5', '6', '7', '8', '9',
    ]
}

fn alphabet_vec() -> (v: Vec<char>)
    ensures
        v@ == alphabet(),
{
    vec![
        'A', 'B', 'C', 'D', 'E', 'F', 'G', 'H', 'J', 'K', 'L', 'M', 'N', 'P', 'Q', 'R',
        'S', 'T', 'U', 'V', 'W', 'X', 'Y', 'Z', '2', '3', '4', '5', '6', '7', '8', '9',
    ]
}

/// No character occurs twice in the alphabet.
pub proof fn lemma_alphabet_distinct()
    ensures
        alphabet().no_duplicates(),
        alphabet().len() == 32,
{
}

/// The alphabet position of each alphabet character is where it stands.
proof fn lemma_index_of_alphabet(j: int)
    requires
        0 <= j < 32,
    ensures
        alphabet().contains(alphabet()[j]),
        alphabet().index_of(alphabet()[j]) == j,
{
    lemma_alphabet_distinct();
    let c = alphabet()[j];
    assert(alphabet()[j] == c);
    let k = alphabet().index_of(c);
    assert(alphabet()[k] == c);
}

/// `32^k`.
pub open spec fn pow32(k: nat) -> nat
    decreases k,
{
    if k == 0 { 1 } else { 32 * pow32((k - 1) as nat) }
}

/// The `k` code characters of `n`: base-32 digits, least significant first.
pub open spec fn code_chars(n: nat, k: nat) -> Seq<char>
    decreases k,
{
    if k == 0 {
        Seq::empty()
    } else {
        seq![alphabet()[(n % 32) as int]] + code_chars(n / 32, (k - 1) as nat)
    }
}

/// The room code of a room id: its lower 30 bits as six code characters.
pub open spec fn room_code_of(id: u64) -> Seq<char> {
    code_chars(id as nat, 6)
}

/// The number a text of alphabet characters stands for (first character least significant).
pub open spec fn code_value(s: Seq<char>) -> nat
    decreases s.len(),
{
    if s.len() == 0 {
        0
    } else {
        (alphabet().index_of(s[0]) + 32 * code_value(s.drop_first())) as nat
    }
}

/// A well-formed room code: six characters, all from the alphabet.
pub open spec fn is_code_text(s: Seq<char>) -> bool {
    s.len() == 6 && forall|i: int| 0 <= i < 6 ==> alphabet().contains(#[trigger] s[i])
}

/// What `RoomCode::decode` returns for a text.
pub open spec fn spec_decode(s: Seq<char>) -> Option<u64> {
    if is_code_text(s) { Some(code_value(s) as u64) } else { None }
}

/// Unique room identifier, generated from a random `u64`.
#[derive(Debug, Clone, Copy, PartialEq, Eq, Hash, Structural)]
pub struct RoomId(pub u64);

/// Human-shareable room code (e.g. "X7K2M3").
#[derive(Debug, PartialEq, Eq, Hash)]
pub struct RoomCode(pub String);

impl Clone for RoomCode {
    fn clone(&self) -> (r: Self)
        ensures
            r == *self,
    {
        RoomCode(self.0.clone())
    }
}

/// Player identifier, handed out in increasing order by a `PlayerIdCounter`.
#[derive(Debug, Clone, Copy, PartialEq, Eq, Hash, Structural)]
pub struct PlayerId(pub u64);

/// A random `u64`.
///
/// Trusted: calls `rand::random::<u64>()` (thread-local generator). Nothing
/// is stated of the value: it is random.
#[verifier::external_body]
pub(crate) fn random_u64() -> u64 {
    rand::random::<u64>()
}

impl RoomId {
    /// A fresh random room id.
    pub fn new() -> (id: Self) {
        RoomId(random_u64())
    }

    /// The 6-character room code: the lower 30 bits of the id, five bits per
    /// character, least significant first.
    pub fn to_room_code(&self) -> (code: RoomCode)
        ensures
            code.0@ == room_code_of(self.0),
    {
        let a = alphabet_vec();
        let mut chars: Vec<char> = Vec::new();
        let mut n: u64 = self.0;
        let mut i: usize = 0;
        while i < 6
            invariant
                a@ == alphabet(),
                0 <= i <= 6,
                chars@ + code_chars(n as nat, (6 - i) as nat) == room_code_of(self.0),
            decreases 6 - i,
        {
            let low: u64 = n & 0x1F;
            let next: u64 = n >> 5;
            assert(low == n % 32 && next == n / 32) by (bit_vector)
                requires
                    low == n & 0x1F,
                    next == n >> 5,
            ;
            let ghost rest = code_chars(n as nat, (6 - i) as nat);
            assert(rest == seq![alphabet()[(n % 32) as int]] + code_chars(next as nat, (6 - i - 1) as nat));
            chars.push(a[low as usize]);
            assert(chars@ + code_chars(next as nat, (6 - (i + 1)) as nat) =~= room_code_of(self.0));
            n = next;
            i = i + 1;
        }
        assert(chars@ =~= room_code_of(self.0));
        RoomCode(string_from_chars(&chars))
    }

    /// The decimal form of the id (its `Display` text).
    pub fn to_display_string(&self) -> (s: String)
        ensures
            s@ == decimal(self.0 as nat),
    {
        u64_to_decimal(self.0)
    }
}

/// The alphabet position of `c`, if it belongs to the alphabet.
fn alphabet_position(a: &Vec<char>, c: char) -> (r: Option<u64>)
    requires
        a@ == alphabet(),
    ensures
        r is Some <==> alphabet().contains(c),
        r matches Some(p) ==> p < 32 && p as int == alphabet().index_of(c),
{
    let mut i: usize = 0;
    while i < a.len()
        invariant
            a@ == alphabet(),
            0 <= i <= 32,
            forall|k: int| 0 <= k < i ==> a@[k] != c,
        decreases 32 - i,
    {
        if a[i] == c {
            proof {
                lemma_index_of_alphabet(i as int);
            }
            return Some(i as u64);
        }
        i = i + 1;
    }
    None
}

/// Code values stay below `32^len`.
proof fn lemma_code_value_bound(s: Seq<char>)
    requires
        forall|i: int| 0 <= i < s.len() ==> alphabet().contains(#[trigger] s[i]),
    ensures
        code_value(s) < pow32(s.len()),
    decreases s.len(),
{
    if s.len() > 0 {
        let rest = s.drop_first();
        assert forall|i: int| 0 <= i < rest.len() implies alphabet().contains(#[trigger] rest[i]) by {
            assert(rest[i] == s[i + 1]);
        }
        lemma_code_value_bound(rest);
        assert(alphabet().contains(s[0]));
        let j = alphabet().index_of(s[0]);
        assert(0 <= j < 32 && alphabet()[j] == s[0]);
        assert(pow32(s.len()) == 32 * pow32(rest.len()));
        assert(code_value(s) == j + 32 * code_value(rest));
        assert(code_value(s) < pow32(s.len())) by (nonlinear_arith)
            requires
                0 <= j < 32,
                code_value(rest) < pow32(rest.len()),
                code_value(s) == j + 32 * code_value(rest),
                pow32(s.len()) == 32 * pow32(rest.len()),
        ;
    }
}

impl RoomCode {
    /// Decodes a room code back to the lower 30 bits of its room id.
    /// Returns `None` unless the code is six alphabet characters.
    pub fn decode(&self) -> (r: Option<u64>)
        ensures
            r == spec_decode(self.0@),
    {
        let a = alphabet_vec();
        let v = chars_of(self.0.as_str());
        if v.len() != 6 {
            return None;
        }
        let mut result: u64 = 0;
        let mut i: usize = 6;
        while i > 0
            invariant
                a@ == alphabet(),
                v@ == self.0@,
                v@.len() == 6,
                0 <= i <= 6,
                forall|k: int| i <= k < 6 ==> alphabet().contains(#[trigger] v@[k]),
                result as nat == code_value(v@.skip(i as int)),
                result < pow32((6 - i) as nat),
            decreases i,
        {
            let p = match alphabet_position(&a, v[i - 1]) {
                Some(p) => p,
                None => {
                    return None;
                },
            };
            let ghost tail = v@.skip(i as int);
            let ghost longer = v@.skip(i - 1);
            assert(longer.drop_first() =~= tail);
            assert(longer[0] == v@[i - 1]);
            assert(pow32((6 - (i - 1)) as nat) == 32 * pow32((6 - i) as nat));
            assert(p + 32 * result < pow32((6 - (i - 1)) as nat)) by (nonlinear_arith)
                requires
                    p < 32,
                    result < pow32((6 - i) as nat),
                    pow32((6 - (i - 1)) as nat) == 32 * pow32((6 - i) as nat),
            ;
            assert(pow32(6) == 1073741824) by {
                reveal_with_fuel(pow32, 7);
            }
            assert(pow32((6 - (i - 1)) as nat) <= pow32(6)) by {
                lemma_pow32_mono((6 - (i - 1)) as nat, 6);
            }
            result = p + 32 * result;
            i = i - 1;
        }
        assert(v@.skip(0) =~= v@);
        Some(result)
    }

    /// The code text itself (its `Display` form).
    pub fn to_display_string(&self) -> (s: String)
        ensures
            s@ == self.0@,
    {
        self.0.clone()
    }
}

proof fn lemma_pow32_pos(k: nat)
    ensures
        pow32(k) > 0,
    decreases k,
{
    if k > 0 {
        lemma_pow32_pos((k - 1) as nat);
    }
}

proof fn lemma_pow32_mono(a: nat, b: nat)
    requires
        a <= b,
    ensures
        pow32(a) <= pow32(b),
    decreases b,
{
    if a < b {
        lemma_pow32_mono(a, (b - 1) as nat);
    }
}

/// The value of the first `k` code characters of `n` is `n mod 32^k`.
proof fn lemma_code_chars_value(n: nat, k: nat)
    ensures
        code_chars(n, k).len() == k,
        forall|i: int| 0 <= i < k ==> alphabet().contains(#[trigger] code_chars(n, k)[i]),
        code_value(code_chars(n, k)) == n % pow32(k),
    decreases k,
{
    if k == 0 {
        assert(code_chars(n, k) =~= Seq::<char>::empty());
    } else {
        lemma_code_chars_value(n / 32, (k - 1) as nat);
        let d = (n % 32) as int;
        let rest = code_chars(n / 32, (k - 1) as nat);
        let s = code_chars(n, k);
        assert(s == seq![alphabet()[d]] + rest);
        assert(s.drop_first() =~= rest);
        assert(s[0] == alphabet()[d]);
        lemma_index_of_alphabet(d);
        assert forall|i: int| 0 <= i < k implies alphabet().contains(#[trigger] s[i]) by {
            if i == 0 {
                lemma_index_of_alphabet(d);
            } else {
                assert(s[i] == rest[i - 1]);
            }
        }
        assert(code_value(s) == d + 32 * code_value(rest));
        assert(pow32(k) == 32 * pow32((k - 1) as nat));
        lemma_pow32_pos((k - 1) as nat);
        vstd::arithmetic::div_mod::lemma_mod_breakdown(n as int, 32, pow32((k - 1) as nat) as int);
    }
}

/// Every room code is six alphabet characters, and decoding it gives back
/// the lower 30 bits of the room id.
pub proof fn lemma_room_code_round_trip(id: u64)
    ensures
        is_code_text(room_code_of(id)),
        spec_decode(room_code_of(id)) == Some((id % 0x4000_0000) as u64),
{
    lemma_code_chars_value(id as nat, 6);
    assert(pow32(6) == 0x4000_0000) by {
        reveal_with_fuel(pow32, 7);
    }
}

/// Reading the code characters of a text of alphabet characters back
/// gives the text.
proof fn lemma_code_chars_of_value(s: Seq<char>)
    requires
        forall|i: int| 0 <= i < s.len() ==> alphabet().contains(#[trigger] s[i]),
    ensures
        code_chars(code_value(s), s.len()) == s,
    decreases s.len(),
{
    if s.len() > 0 {
        let rest = s.drop_first();
        assert forall|i: int| 0 <= i < rest.len() implies alphabet().contains(#[trigger] rest[i]) by {
            assert(rest[i] == s[i + 1]);
        }
        lemma_code_chars_of_value(rest);
        lemma_alphabet_distinct();
        assert(alphabet().contains(s[0]));
        let j = alphabet().index_of(s[0]);
        assert(0 <= j < 32 && alphabet()[j] == s[0]);
        let n = code_value(s);
        assert(n == j + 32 * code_value(rest));
        assert(n % 32 == j && n / 32 == code_value(rest)) by (nonlinear_arith)
            requires
                n == j + 32 * code_value(rest),
                0 <= j < 32,
        ;
        assert(code_chars(n, s.len()) =~= seq![alphabet()[j]] + code_chars(code_value(rest), rest.len()));
        assert(code_chars(n, s.len()) =~= s);
    }
}

/// A room code is read back exactly: every valid code decodes to a number
/// below `2^30` whose room code is that same text. So decoding is injective
/// on valid codes, and `to_room_code` inverts it.
pub proof fn lemma_decode_inverts(s: Seq<char>)
    requires
        spec_decode(s) is Some,
    ensures
        spec_decode(s)->0 < 0x4000_0000,
        room_code_of(spec_decode(s)->0) == s,
{
    lemma_code_value_bound(s);
    assert(pow32(6) == 0x4000_0000) by {
        reveal_with_fuel(pow32, 7);
    }
    lemma_code_chars_of_value(s);
}

/// Two valid codes that decode to the same number are the same text.
pub proof fn lemma_decode_injective(s: Seq<char>, t: Seq<char>)
    requires
        spec_decode(s) is Some,
        spec_decode(s) == spec_decode(t),
    ensures
        s == t,
{
    lemma_decode_inverts(s);
    lemma_decode_inverts(t);
}

/// Hands out player ids in increasing order, starting at 1.
pub struct PlayerIdCounter {
    next: u64,
}

impl PlayerIdCounter {
    /// The id the next call of `PlayerId::new` hands out.
    pub closed spec fn upcoming(&self) -> u64 {
        self.next
    }

    /// A counter whose first id is 1.
    pub fn new() -> (c: Self)
        ensures
            c.upcoming() == 1,
    {
        PlayerIdCounter { next: 1 }
    }
}

impl PlayerId {
    /// The next player id of `counter` (ids wrap around after `u64::MAX`).
    pub fn new(counter: &mut PlayerIdCounter) -> (id: Self)
        ensures
            id.0 == old(counter).upcoming(),
            final(counter).upcoming() == old(counter).upcoming().wrapping_add(1),
    {
        let id = counter.next;
        counter.next = counter.next.wrapping_add(1);
        PlayerId(id)
    }

    /// The decimal form of the id (its `Display` text).
    pub fn to_display_string(&self) -> (s: String)
        ensures
            s@ == decimal(self.0 as nat),
    {
        u64_to_decimal(self.0)
    }
}

/// Player ids are unique and increasing: a counter hands out its upcoming
/// id, then the next one, and so on, so of the ids drawn one after another
/// from it (before it wraps past `u64::MAX`) each is larger than all earlier
/// ones; from a fresh counter they are 1, 2, 3, .... `counters[i]` is the
/// counter before draw `i` (and `counters[i + 1]` after it), `ids[i]` what
/// `PlayerId::new` handed out in draw `i`.
pub proof fn lemma_player_ids_increase(counters: Seq<PlayerIdCounter>, ids: Seq<PlayerId>)
    requires
        counters.len() == ids.len() + 1,
        counters[0].upcoming() + ids.len() <= u64::MAX + 1,
        forall|i: int| 0 <= i < ids.len() ==>
            (#[trigger] ids[i]).0 == counters[i].upcoming()
            && counters[i + 1].upcoming() == counters[i].upcoming().wrapping_add(1),
    ensures
        forall|i: int| 0 <= i < ids.len() ==> (#[trigger] ids[i]).0 == counters[0].upcoming() + i,
        forall|i: int, j: int| 0 <= i < j < ids.len() ==> (#[trigger] ids[i]).0 < (#[trigger] ids[j]).0,
        counters[0].upcoming() >= 1 ==> forall|i: int| 0 <= i < ids.len() ==> (#[trigger] ids[i]).0 >= 1,
    decreases ids.len(),
{
    if ids.len() > 0 {
        let n = ids.len() - 1;
        lemma_player_ids_increase(counters.take(n + 1), ids.take(n));
        assert forall|i: int| 0 <= i < n implies (#[trigger] ids[i]).0 == counters[0].upcoming() + i by {
            assert(ids.take(n)[i] == ids[i]);
        }
        assert(counters[n].upcoming() == counters[0].upcoming() + n) by {
            if n > 0 {
                assert(ids[n - 1].0 == counters[n - 1].upcoming());
                assert(ids.take(n)[n - 1].0 == counters[0].upcoming() + n - 1);
            }
        }
        assert(ids[n].0 == counters[n].upcoming());
    }
}

} // verus!
