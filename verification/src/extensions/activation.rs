//! Activation tokens: leave to take the keyboard focus, granted once.

use vstd::prelude::*;
use crate::text::text_equal;

verus! {

/// How long a token can be used, in milliseconds.
pub const ACTIVATION_TOKEN_TTL_MS: u64 = 30_000;

/// The number of unused tokens at which the oldest make room.
pub const MAX_ACTIVATION_TOKENS: usize = 256;

/// A token that has been granted and not used.
#[derive(Debug)]
pub struct ActivationToken {
    pub text: String,
    pub seat: u64,
    /// When it was granted, on the millisecond clock.
    pub committed_at: u64,
}

/// The tokens that have been granted and not used.
#[derive(Debug)]
pub struct ActivationTokens {
    pub tokens: Vec<ActivationToken>,
}

/// The sixteen hexadecimal digits.
pub open spec fn hex_digit(value: u32) -> char {
    if value < 10 {
        ('0' as u32 + value) as char
    } else {
        ('a' as u32 + value - 10) as char
    }
}

/// The hexadecimal digit of a number below sixteen, as text.
fn hex_text(value: u32) -> (text: &'static str)
    requires
        value < 16,
    ensures
        text@ == seq![hex_digit(value)],
{
    proof {
        reveal_strlit("0");
        reveal_strlit("1");
        reveal_strlit("2");
        reveal_strlit("3");
        reveal_strlit("4");
        reveal_strlit("5");
        reveal_strlit("6");
        reveal_strlit("7");
        reveal_strlit("8");
        reveal_strlit("9");
        reveal_strlit("a");
        reveal_strlit("b");
        reveal_strlit("c");
        reveal_strlit("d");
        reveal_strlit("e");
        reveal_strlit("f");
    }
    let text = if value == 0 {
        "0"
    } else if value == 1 {
        "1"
    } else if value == 2 {
        "2"
    } else if value == 3 {
        "3"
    } else if value == 4 {
        "4"
    } else if value == 5 {
        "5"
    } else if value == 6 {
        "6"
    } else if value == 7 {
        "7"
    } else if value == 8 {
        "8"
    } else if value == 9 {
        "9"
    } else if value == 10 {
        "a"
    } else if value == 11 {
        "b"
    } else if value == 12 {
        "c"
    } else if value == 13 {
        "d"
    } else if value == 14 {
        "e"
    } else {
        "f"
    };
    assert(text@ =~= seq![hex_digit(value)]);
    text
}

/// The last `count` hexadecimal digits of a number.
pub open spec fn hex_digits(value: u32, count: nat) -> Seq<char>
    decreases count,
{
    if count == 0 {
        Seq::empty()
    } else {
        hex_digits(value / 16, (count - 1) as nat).push(hex_digit(value % 16))
    }
}

fn hex_digits_text(value: u32, count: u32) -> (text: String)
    ensures
        text@ == hex_digits(value, count as nat),
    decreases count,
{
    if count == 0 {
        return String::new();
    }
    let mut text = hex_digits_text(value / 16, count - 1);
    let last = hex_text(value % 16);
    proof {
        assert(text@ + last@ =~= text@.push(hex_digit(value % 16)));
    }
    text.append(last);
    text
}

/// The text of the token with the given number: eight hexadecimal digits behind
/// a fixed name.
pub open spec fn token_name(serial: u32) -> Seq<char> {
    "tessera-activation-"@ + hex_digits(serial, 8)
}

/// The text of the token with the given number.
pub fn token_text(serial: u32) -> (text: String)
    ensures
        text@ == token_name(serial),
{
    let mut text = "tessera-activation-".to_owned();
    let digits = hex_digits_text(serial, 8);
    text.append(digits.as_str());
    text
}

proof fn lemma_hex_digits_differ(left: u32, right: u32, count: nat)
    requires
        hex_digits(left, count) == hex_digits(right, count),
        left < vstd::arithmetic::power::pow(16, count),
        right < vstd::arithmetic::power::pow(16, count),
    ensures
        left == right,
    decreases count,
{
    reveal(vstd::arithmetic::power::pow);
    if count > 0 {
        let a = hex_digits(left / 16, (count - 1) as nat);
        let b = hex_digits(right / 16, (count - 1) as nat);
        assert(a.push(hex_digit(left % 16)).last() == b.push(hex_digit(right % 16)).last());
        assert(a =~= a.push(hex_digit(left % 16)).drop_last());
        assert(b =~= b.push(hex_digit(right % 16)).drop_last());
        assert(left % 16 == right % 16);
        lemma_hex_digits_differ(left / 16, right / 16, (count - 1) as nat);
    }
}

/// Tokens with different numbers have different texts.
pub proof fn token_names_are_distinct(left: u32, right: u32)
    requires
        token_name(left) == token_name(right),
    ensures
        left == right,
{
    let name = "tessera-activation-"@;
    let a = hex_digits(left, 8);
    let b = hex_digits(right, 8);
    assert(a =~= (name + a).skip(name.len() as int));
    assert(b =~= (name + b).skip(name.len() as int));
    assert(vstd::arithmetic::power::pow(16, 8) == 0x1_0000_0000) by {
        reveal_with_fuel(vstd::arithmetic::power::pow, 9);
    }
    lemma_hex_digits_differ(left, right, 8);
}

/// Whether a token can still be used.
pub open spec fn fresh(token: ActivationToken, now_ms: u64) -> bool {
    now_ms < token.committed_at || now_ms - token.committed_at < ACTIVATION_TOKEN_TTL_MS
}

/// The tokens that can still be used.
pub open spec fn fresh_tokens(tokens: Seq<ActivationToken>, now_ms: u64) -> Seq<ActivationToken> {
    tokens.filter(|t: ActivationToken| fresh(t, now_ms))
}

/// Whether the token at `index` is the first of the oldest.
pub open spec fn is_oldest(tokens: Seq<ActivationToken>, index: int) -> bool {
    &&& 0 <= index < tokens.len()
    &&& forall|i: int|
        #![trigger tokens[i]]
        0 <= i < tokens.len() ==> tokens[index].committed_at <= tokens[i].committed_at
    &&& forall|i: int|
        #![trigger tokens[i]]
        0 <= i < index ==> tokens[index].committed_at < tokens[i].committed_at
}

/// The tokens once the oldest have made room for one more.
pub open spec fn with_room(tokens: Seq<ActivationToken>) -> Seq<ActivationToken>
    decreases tokens.len(),
{
    if tokens.len() < MAX_ACTIVATION_TOKENS {
        tokens
    } else {
        let oldest = choose|index: int| is_oldest(tokens, index);
        if is_oldest(tokens, oldest) {
            with_room(tokens.remove(oldest))
        } else {
            tokens
        }
    }
}

/// Every token has its own text.
pub open spec fn distinct_texts(tokens: Seq<ActivationToken>) -> bool {
    forall|i: int, j: int|
        #![trigger tokens[i], tokens[j]]
        0 <= i < j < tokens.len() ==> tokens[i].text@ != tokens[j].text@
}

/// Whether a token with the given text can be used.
pub open spec fn knows(tokens: Seq<ActivationToken>, text: Seq<char>) -> bool {
    exists|i: int| 0 <= i < tokens.len() && (#[trigger] tokens[i]).text@ == text
}

proof fn lemma_oldest_is_unique(tokens: Seq<ActivationToken>, left: int, right: int)
    requires
        is_oldest(tokens, left),
        is_oldest(tokens, right),
    ensures
        left == right,
{
    if left < right {
        assert(tokens[right].committed_at < tokens[left].committed_at);
        assert(tokens[left].committed_at <= tokens[right].committed_at);
    }
    if right < left {
        assert(tokens[left].committed_at < tokens[right].committed_at);
        assert(tokens[right].committed_at <= tokens[left].committed_at);
    }
}

proof fn lemma_remove_distinct(tokens: Seq<ActivationToken>, index: int)
    requires
        distinct_texts(tokens),
        0 <= index < tokens.len(),
    ensures
        distinct_texts(tokens.remove(index)),
{
    let rest = tokens.remove(index);
    assert forall|i: int, j: int|
        #![trigger rest[i], rest[j]]
        0 <= i < j < rest.len() implies rest[i].text@ != rest[j].text@ by {
        let a = if i < index {
            i
        } else {
            i + 1
        };
        let b = if j < index {
            j
        } else {
            j + 1
        };
        assert(rest[i] == tokens[a] && rest[j] == tokens[b]);
    }
}

impl ActivationTokens {
    /// Every token has its own text.
    pub open spec fn wf(self) -> bool {
        distinct_texts(self.tokens@)
    }

    /// No tokens.
    pub fn new() -> (tokens: ActivationTokens)
        ensures
            tokens.wf(),
            tokens.tokens@.len() == 0,
    {
        ActivationTokens { tokens: Vec::new() }
    }

    /// Forget tokens that can no longer be used, and the oldest where there
    /// would be too many.
    pub fn expire(&mut self, now_ms: u64)
        requires
            old(self).wf(),
        ensures
            final(self).wf(),
            final(self).tokens@ == with_room(fresh_tokens(old(self).tokens@, now_ms)),
            final(self).tokens@.len() < MAX_ACTIVATION_TOKENS,
    {
        let ghost before = self.tokens@;
        let mut index: usize = 0;
        assert(before.take(0) =~= Seq::<ActivationToken>::empty());
        proof {
            reveal(Seq::filter);
        }
        assert(fresh_tokens(before.take(0), now_ms) =~= Seq::<ActivationToken>::empty());
        let ghost mut seen: int = 0;
        while index < self.tokens.len()
            invariant
                0 <= seen <= before.len(),
                index <= self.tokens.len(),
                distinct_texts(self.tokens@),
                self.tokens@ == fresh_tokens(before.take(seen), now_ms) + before.skip(seen),
                index == fresh_tokens(before.take(seen), now_ms).len(),
            decreases before.len() - seen,
        {
            let ghost done = fresh_tokens(before.take(seen), now_ms);
            proof {
                assert(seen < before.len());
                assert(self.tokens@[index as int] == before[seen]);
                assert(before.take(seen + 1).drop_last() =~= before.take(seen));
                reveal(Seq::filter);
            }
            let committed_at: u64 = self.tokens[index].committed_at;
            if now_ms < committed_at || now_ms - committed_at < ACTIVATION_TOKEN_TTL_MS {
                proof {
                    assert(fresh_tokens(before.take(seen + 1), now_ms) == done.push(before[seen]));
                    assert(done.push(before[seen]) + before.skip(seen + 1) =~= done + before.skip(
                        seen,
                    ));
                    seen = seen + 1;
                }
                index += 1;
            } else {
                proof {
                    assert(fresh_tokens(before.take(seen + 1), now_ms) == done);
                    assert((done + before.skip(seen)).remove(index as int) =~= done + before.skip(
                        seen + 1,
                    ));
                    lemma_remove_distinct(self.tokens@, index as int);
                    seen = seen + 1;
                }
                self.tokens.remove(index);
            }
        }
        proof {
            assert(seen == before.len());
            assert(before.take(seen) =~= before);
            assert(self.tokens@ =~= fresh_tokens(before, now_ms));
        }
        while self.tokens.len() >= MAX_ACTIVATION_TOKENS
            invariant
                distinct_texts(self.tokens@),
                with_room(self.tokens@) == with_room(fresh_tokens(before, now_ms)),
            decreases self.tokens.len(),
        {
            let mut oldest: usize = 0;
            let mut next: usize = 1;
            while next < self.tokens.len()
                invariant
                    1 <= next <= self.tokens.len(),
                    oldest < next,
                    forall|i: int|
                        #![trigger self.tokens@[i]]
                        0 <= i < next ==> self.tokens@[oldest as int].committed_at
                            <= self.tokens@[i].committed_at,
                    forall|i: int|
                        #![trigger self.tokens@[i]]
                        0 <= i < oldest ==> self.tokens@[oldest as int].committed_at
                            < self.tokens@[i].committed_at,
                decreases self.tokens.len() - next,
            {
                if self.tokens[next].committed_at < self.tokens[oldest].committed_at {
                    oldest = next;
                }
                next += 1;
            }
            proof {
                assert(is_oldest(self.tokens@, oldest as int));
                let chosen = choose|index: int| is_oldest(self.tokens@, index);
                lemma_oldest_is_unique(self.tokens@, oldest as int, chosen);
                lemma_remove_distinct(self.tokens@, oldest as int);
            }
            self.tokens.remove(oldest);
        }
    }

    /// Remember a token. One with the same text is replaced.
    fn insert(&mut self, token: ActivationToken)
        requires
            old(self).wf(),
        ensures
            final(self).wf(),
            !knows(old(self).tokens@, token.text@) ==> final(self).tokens@
                == old(self).tokens@.push(token),
            knows(old(self).tokens@, token.text@) ==> exists|i: int|
                0 <= i < old(self).tokens@.len() && (#[trigger] old(self).tokens@[i]).text@
                    == token.text@ && final(self).tokens@ == old(self).tokens@.update(i, token),
    {
        match self.find(token.text.as_str()) {
            Some(index) => {
                let ghost before = self.tokens@;
                self.tokens[index] = token;
                proof {
                    assert(before[index as int].text@ == token.text@);
                    assert forall|i: int, j: int|
                        #![trigger self.tokens@[i], self.tokens@[j]]
                        0 <= i < j < self.tokens@.len() implies self.tokens@[i].text@
                        != self.tokens@[j].text@ by {
                        assert(before[i].text@ != before[j].text@);
                    }
                }
            },
            None => {
                let ghost before = self.tokens@;
                let ghost text = token.text@;
                self.tokens.push(token);
                proof {
                    assert forall|i: int, j: int|
                        #![trigger self.tokens@[i], self.tokens@[j]]
                        0 <= i < j < self.tokens@.len() implies self.tokens@[i].text@
                        != self.tokens@[j].text@ by {
                        assert(before[i].text@ != text);
                        if j < before.len() {
                            assert(before[i].text@ != before[j].text@);
                        }
                    }
                }
            },
        }
    }

    fn find(&self, text: &str) -> (found: Option<usize>)
        ensures
            match found {
                Some(index) => index < self.tokens@.len() && self.tokens@[index as int].text@
                    == text@,
                None => !knows(self.tokens@, text@),
            },
    {
        let mut index: usize = 0;
        while index < self.tokens.len()
            invariant
                index <= self.tokens.len(),
                forall|i: int| 0 <= i < index ==> (#[trigger] self.tokens@[i]).text@ != text@,
            decreases self.tokens.len() - index,
        {
            if text_equal(self.tokens[index].text.as_str(), text) {
                return Some(index);
            }
            index += 1;
        }
        None
    }

    /// Use a token, which can be used once. The answer is the seat it was
    /// granted to; unknown tokens give nothing.
    pub fn redeem(&mut self, text: &str) -> (seat: Option<u64>)
        requires
            old(self).wf(),
        ensures
            final(self).wf(),
            seat is Some <==> knows(old(self).tokens@, text@),
            seat is None ==> final(self).tokens@ == old(self).tokens@,
            seat is Some ==> exists|i: int|
                0 <= i < old(self).tokens@.len() && (#[trigger] old(self).tokens@[i]).text@ == text@
                    && seat == Some(old(self).tokens@[i].seat) && final(self).tokens@
                    == old(self).tokens@.remove(i),
            !knows(final(self).tokens@, text@),
    {
        match self.find(text) {
            Some(index) => {
                let ghost before = self.tokens@;
                proof {
                    lemma_remove_distinct(before, index as int);
                }
                let token = self.tokens.remove(index);
                proof {
                    let rest = self.tokens@;
                    assert forall|i: int| 0 <= i < rest.len() implies (#[trigger] rest[i]).text@
                        != text@ by {
                        if i < index {
                            assert(rest[i] == before[i]);
                            assert(before[i].text@ != before[index as int].text@);
                        } else {
                            assert(rest[i] == before[i + 1]);
                            assert(before[index as int].text@ != before[i + 1].text@);
                        }
                    }
                }
                Some(token.seat)
            },
            None => None,
        }
    }

    /// A client wants the focus for a surface, by a token. Only for its own
    /// surfaces is the token used.
    pub fn activate(&mut self, text: &str, client: u64, surface_client: Option<u64>) -> (seat: Option<
        u64,
    >)
        requires
            old(self).wf(),
        ensures
            final(self).wf(),
            surface_client != Some(client) ==> seat is None && final(self).tokens@
                == old(self).tokens@,
            surface_client == Some(client) ==> {
                &&& seat is Some <==> knows(old(self).tokens@, text@)
                &&& seat is None ==> final(self).tokens@ == old(self).tokens@
                &&& seat is Some ==> exists|i: int|
                    0 <= i < old(self).tokens@.len() && (#[trigger] old(self).tokens@[i]).text@
                        == text@ && seat == Some(old(self).tokens@[i].seat)
                        && final(self).tokens@ == old(self).tokens@.remove(i)
                &&& !knows(final(self).tokens@, text@)
            },
    {
        match surface_client {
            Some(owner) => if owner == client {
                self.redeem(text)
            } else {
                None
            },
            None => None,
        }
    }
}

/// Tokens that are kept have not outlived their time, and were granted.
pub proof fn kept_tokens_are_fresh(tokens: Seq<ActivationToken>, now_ms: u64, index: int)
    requires
        0 <= index < with_room(fresh_tokens(tokens, now_ms)).len(),
    ensures
        fresh(with_room(fresh_tokens(tokens, now_ms))[index], now_ms),
        tokens.contains(with_room(fresh_tokens(tokens, now_ms))[index]),
{
    let alive = fresh_tokens(tokens, now_ms);
    lemma_room_keeps(alive, index);
    let token = with_room(alive)[index];
    let place = choose|i: int| 0 <= i < alive.len() && alive[i] == token;
    tokens.lemma_filter_pred(|t: ActivationToken| fresh(t, now_ms), place);
    tokens.lemma_filter_contains_rev(|t: ActivationToken| fresh(t, now_ms), token);
}

/// Making room only takes tokens away.
proof fn lemma_room_keeps(tokens: Seq<ActivationToken>, index: int)
    requires
        0 <= index < with_room(tokens).len(),
    ensures
        tokens.contains(with_room(tokens)[index]),
    decreases tokens.len(),
{
    if tokens.len() >= MAX_ACTIVATION_TOKENS {
        let oldest = choose|index: int| is_oldest(tokens, index);
        if is_oldest(tokens, oldest) {
            let rest = tokens.remove(oldest);
            lemma_room_keeps(rest, index);
            let token = with_room(tokens)[index];
            let place = choose|i: int| 0 <= i < rest.len() && rest[i] == token;
            if place < oldest {
                assert(tokens[place] == token);
            } else {
                assert(tokens[place + 1] == token);
            }
        }
    }
}

/// A client's request for a token, as far as it has been made.
#[derive(Debug, Clone, Copy, PartialEq, Eq)]
pub struct TokenRequest {
    pub client: u64,
    /// The number of the input event that the client acts on.
    pub serial: Option<u32>,
    pub seat: Option<u64>,
    /// Whether the client named a surface.
    pub has_surface: bool,
    pub committed: bool,
}

/// A token request was used after it was completed.
#[derive(Debug, Clone, Copy, PartialEq, Eq, Structural)]
pub struct AlreadyUsed;

/// What the compositor knows when a token request is completed.
#[derive(Debug, Clone, Copy, PartialEq, Eq)]
pub struct CommitContext {
    /// A number that no other token has.
    pub serial: u32,
    /// Whether the seat of the request is still there.
    pub seat_present: bool,
    /// The client with the keyboard focus of that seat.
    pub focus_client: Option<u64>,
    /// The client of the surface that the request names.
    pub surface_client: u64,
    /// The number of that seat's latest button event.
    pub last_button_serial: u32,
    pub now_ms: u64,
}

impl TokenRequest {
    /// A new request of a client.
    pub fn new(client: u64) -> (request: TokenRequest)
        ensures
            request == (TokenRequest {
                client,
                serial: None,
                seat: None,
                has_surface: false,
                committed: false,
            }),
    {
        TokenRequest { client, serial: None, seat: None, has_surface: false, committed: false }
    }

    /// The client names the input event that it acts on. It counts when it is
    /// the latest button event of a seat that the client may use.
    pub fn set_serial(
        &mut self,
        serial: u32,
        seat: Option<u64>,
        seat_client: u64,
        last_button_serial: u32,
    )
        ensures
            *final(self) == if !old(self).committed && seat is Some && seat_client
                == old(self).client && serial == last_button_serial {
                TokenRequest { serial: Some(serial), seat, ..*old(self) }
            } else {
                *old(self)
            },
    {
        if self.committed {
            return;
        }
        if seat.is_some() && seat_client == self.client && serial == last_button_serial {
            self.serial = Some(serial);
            self.seat = seat;
        }
    }

    /// The client names its application, which only matters after completion.
    pub fn set_app_id(&self) -> (result: Result<(), AlreadyUsed>)
        ensures
            result == if self.committed {
                Err::<(), AlreadyUsed>(AlreadyUsed)
            } else {
                Ok::<(), AlreadyUsed>(())
            },
    {
        if self.committed {
            Err(AlreadyUsed)
        } else {
            Ok(())
        }
    }

    /// The client names a surface. Only its own count.
    pub fn set_surface(&mut self, client: u64, surface_client: Option<u64>)
        ensures
            *final(self) == if !old(self).committed && surface_client == Some(client) {
                TokenRequest { has_surface: true, ..*old(self) }
            } else {
                *old(self)
            },
    {
        if self.committed {
            return;
        }
        if let Some(owner) = surface_client {
            if owner == client {
                self.has_surface = true;
            }
        }
    }

    /// Whether the request earns a token that works: the client has the
    /// keyboard focus, acts on the latest button event, and names no surface but
    /// its own.
    pub open spec fn earned(self, context: CommitContext) -> bool {
        &&& self.seat is Some
        &&& context.seat_present
        &&& context.focus_client == Some(self.client)
        &&& (self.has_surface ==> context.surface_client == self.client)
        &&& self.serial == Some(context.last_button_serial)
    }

    /// Complete the request. The client gets a token in any case; it works only
    /// where it was earned.
    pub fn commit(&mut self, tokens: &mut ActivationTokens, context: CommitContext) -> (result:
        Result<String, AlreadyUsed>)
        requires
            old(tokens).wf(),
        ensures
            final(tokens).wf(),
            *final(self) == (TokenRequest { committed: true, ..*old(self) }),
            old(self).committed ==> result == Err::<String, AlreadyUsed>(AlreadyUsed)
                && final(tokens).tokens@ == old(tokens).tokens@,
            !old(self).committed ==> {
                &&& result matches Ok(text)
                &&& text@ == token_name(context.serial)
            },
            !old(self).committed && !old(self).earned(context) ==> final(tokens).tokens@
                == old(tokens).tokens@,
            !old(self).committed && old(self).earned(context) ==> {
                let room = with_room(fresh_tokens(old(tokens).tokens@, context.now_ms));
                let name = token_name(context.serial);
                &&& final(tokens).tokens@.len() <= MAX_ACTIVATION_TOKENS
                &&& knows(final(tokens).tokens@, name)
                &&& !knows(room, name) ==> exists|token: ActivationToken|
                    #![trigger room.push(token)]
                    token.text@ == name && Some(token.seat) == old(self).seat && token.committed_at
                        == context.now_ms && final(tokens).tokens@ == room.push(token)
                &&& knows(room, name) ==> exists|token: ActivationToken, i: int|
                    #![trigger room.update(i, token)]
                    0 <= i < room.len() && room[i].text@ == name && token.text@ == name && Some(
                        token.seat,
                    ) == old(self).seat && token.committed_at == context.now_ms
                        && final(tokens).tokens@ == room.update(i, token)
            },
    {
        if self.committed {
            return Err(AlreadyUsed);
        }
        self.committed = true;
        let text = token_text(context.serial);
        if let Some(seat) = self.seat {
            let focused = match context.focus_client {
                Some(client) => client == self.client,
                None => false,
            };
            let own_surface = !self.has_surface || context.surface_client == self.client;
            let latest = match self.serial {
                Some(serial) => serial == context.last_button_serial,
                None => false,
            };
            if context.seat_present && focused && own_surface && latest {
                tokens.expire(context.now_ms);
                let ghost room = tokens.tokens@;
                let token = ActivationToken {
                    text: text.clone(),
                    seat,
                    committed_at: context.now_ms,
                };
                let ghost kept = token;
                tokens.insert(token);
                proof {
                    let name = token_name(context.serial);
                    if knows(room, name) {
                        let i = choose|i: int|
                            0 <= i < room.len() && (#[trigger] room[i]).text@ == name
                                && tokens.tokens@ == room.update(i, kept);
                        assert(tokens.tokens@[i].text@ == name);
                        assert(tokens.tokens@ == room.update(i, kept));
                    } else {
                        assert(tokens.tokens@ == room.push(kept));
                        assert(tokens.tokens@[room.len() as int].text@ == name);
                    }
                }
            }
        }
        Ok(text)
    }
}

/// Decide whether a used token moves the focus: its seat must still be there, and
/// must control the window.
pub fn activation_takes_effect(seat_present: bool, seat_controls_window: Option<bool>) -> (effect:
    bool)
    ensures
        effect == (seat_present && seat_controls_window == Some(true)),
{
    match seat_controls_window {
        Some(controls) => seat_present && controls,
        None => false,
    }
}

/// A token can be used once: it gives the seat that it was granted to, and after
/// that, nothing.
pub proof fn tokens_work_once(
    tokens: &mut ActivationTokens,
    text: &str,
    seat: Option<u64>,
    again: &mut ActivationTokens,
    second: Option<u64>,
    index: int,
)
    requires
        tokens.wf(),
        call_ensures(ActivationTokens::redeem, (tokens, text), seat),
        *again == *final(tokens),
        call_ensures(ActivationTokens::redeem, (again, text), second),
        0 <= index < tokens.tokens@.len(),
    ensures
        old(tokens).tokens@[index].text@ == text@ ==> seat == Some(old(tokens).tokens@[index].seat),
        second is None,
        seat is Some ==> final(tokens).tokens@.len() == old(tokens).tokens@.len() - 1,
        seat is None ==> final(tokens).tokens@ == old(tokens).tokens@,
{
    let list = tokens.tokens@;
    if list[index].text@ == text@ {
        assert(knows(list, text@));
        let i = choose|i: int|
            0 <= i < list.len() && (#[trigger] list[i]).text@ == text@ && seat == Some(list[i].seat)
                && final(tokens).tokens@ == list.remove(i);
        if i < index {
            assert(list[i].text@ != list[index].text@);
        }
        if index < i {
            assert(list[index].text@ != list[i].text@);
        }
    }
}

/// A token is used only by a client that wants the focus for its own surface, and
/// gives the seat that it was granted to.
pub proof fn clients_activate_their_own_surfaces(
    tokens: &mut ActivationTokens,
    text: &str,
    client: u64,
    surface_client: Option<u64>,
    seat: Option<u64>,
    index: int,
)
    requires
        tokens.wf(),
        call_ensures(ActivationTokens::activate, (tokens, text, client, surface_client), seat),
        0 <= index < tokens.tokens@.len(),
        tokens.tokens@[index].text@ == text@,
    ensures
        surface_client == Some(client) ==> seat == Some(old(tokens).tokens@[index].seat),
        surface_client != Some(client) ==> seat is None
            && final(tokens).tokens@ == old(tokens).tokens@,
{
    let list = tokens.tokens@;
    assert(knows(list, text@));
    if surface_client == Some(client) {
        let i = choose|i: int|
            0 <= i < list.len() && (#[trigger] list[i]).text@ == text@ && seat == Some(list[i].seat)
                && final(tokens).tokens@ == list.remove(i);
        if i < index {
            assert(list[i].text@ != list[index].text@);
        }
        if index < i {
            assert(list[index].text@ != list[i].text@);
        }
    }
}

/// A request whose client has the keyboard focus of the seat, acts on that seat's
/// latest button event and names no foreign surface gets a token for that seat; any
/// other gets one that nobody knows.
pub proof fn tokens_are_earned(
    request: &mut TokenRequest,
    tokens: &mut ActivationTokens,
    context: CommitContext,
    text: String,
)
    requires
        tokens.wf(),
        !request.committed,
        call_ensures(TokenRequest::commit, (request, tokens, context), Ok(text)),
    ensures
        final(request).committed,
        text@ == token_name(context.serial),
        ({
            let earned = old(request).seat is Some && context.seat_present && context.focus_client
                == Some(old(request).client) && (old(request).has_surface ==> context.surface_client
                == old(request).client) && old(request).serial == Some(context.last_button_serial);
            &&& !earned ==> final(tokens).tokens@ == old(tokens).tokens@
            &&& earned ==> exists|i: int|
                #![trigger final(tokens).tokens@[i]]
                0 <= i < final(tokens).tokens@.len() && final(tokens).tokens@[i].text@ == text@
                    && Some(final(tokens).tokens@[i].seat) == old(request).seat
                        && final(tokens).tokens@[i].committed_at == context.now_ms
        }),
{
    if request.earned(context) {
        let room = with_room(fresh_tokens(tokens.tokens@, context.now_ms));
        let name = token_name(context.serial);
        if knows(room, name) {
            let (token, i) = choose|token: ActivationToken, i: int|
                #![trigger room.update(i, token)]
                0 <= i < room.len() && room[i].text@ == name && token.text@ == name && Some(
                    token.seat,
                ) == request.seat && token.committed_at == context.now_ms && final(tokens).tokens@
                    == room.update(i, token);
            assert(final(tokens).tokens@[i] == token);
        } else {
            let token = choose|token: ActivationToken|
                #![trigger room.push(token)]
                token.text@ == name && Some(token.seat) == request.seat && token.committed_at
                    == context.now_ms && final(tokens).tokens@ == room.push(token);
            assert(final(tokens).tokens@[room.len() as int] == token);
        }
    }
}

/// A request can be completed once.
pub proof fn requests_are_completed_once(
    request: &mut TokenRequest,
    tokens: &mut ActivationTokens,
    context: CommitContext,
    result: Result<String, AlreadyUsed>,
)
    requires
        tokens.wf(),
        call_ensures(TokenRequest::commit, (request, tokens, context), result),
    ensures
        result is Ok <==> !old(request).committed,
        final(request).committed,
        old(request).committed ==> final(tokens).tokens@ == old(tokens).tokens@,
{
}

/// The input event that a request names counts if and only if it is the latest
/// button event of a seat that the client may use, and the request is still open.
pub proof fn only_the_latest_button_counts(
    request: &mut TokenRequest,
    serial: u32,
    seat: Option<u64>,
    seat_client: u64,
    last_button_serial: u32,
)
    requires
        call_ensures(
            TokenRequest::set_serial,
            (request, serial, seat, seat_client, last_button_serial),
            (),
        ),
    ensures
        !old(request).committed && seat is Some && seat_client == old(request).client && serial
            == last_button_serial ==> final(request).serial == Some(serial) && final(request).seat
            == seat,
        old(request).committed || seat is None || seat_client != old(request).client || serial
            != last_button_serial ==> *final(request) == *old(request),
        final(request).client == old(request).client,
        final(request).has_surface == old(request).has_surface,
        final(request).committed == old(request).committed,
{
}

/// A token that has outlived half a minute is forgotten, and no other while there is
/// room for it.
pub proof fn tokens_last_half_a_minute(tokens: &mut ActivationTokens, now_ms: u64, index: int)
    requires
        tokens.wf(),
        call_ensures(ActivationTokens::expire, (tokens, now_ms), ()),
        0 <= index < tokens.tokens@.len(),
    ensures
        final(tokens).tokens@.len() < 256,
        forall|i: int|
            0 <= i < final(tokens).tokens@.len()
                ==> now_ms - (#[trigger] final(tokens).tokens@[i]).committed_at < 30_000,
        now_ms - old(tokens).tokens@[index].committed_at < 30_000 && old(tokens).tokens@.len() < 256
            ==> final(tokens).tokens@.contains(old(tokens).tokens@[index]),
{
    let before = tokens.tokens@;
    let alive = fresh_tokens(before, now_ms);
    assert forall|i: int| 0 <= i < final(tokens).tokens@.len() implies now_ms - (
    #[trigger] final(tokens).tokens@[i]).committed_at < 30_000 by {
        kept_tokens_are_fresh(before, now_ms, i);
    }
    if now_ms - before[index].committed_at < 30_000 && before.len() < 256 {
        before.lemma_filter_len(|t: ActivationToken| fresh(t, now_ms));
        before.lemma_filter_contains(|t: ActivationToken| fresh(t, now_ms), index);
        assert(with_room(alive) == alive);
    }
}

/// A used token moves the focus only through a seat that is there and controls the window.
pub proof fn activation_needs_the_seat(
    present: bool,
    controls: Option<bool>,
    effect: bool,
    request: &mut TokenRequest,
    client: u64,
    surface_client: Option<u64>,
)
    requires
        call_ensures(activation_takes_effect, (present, controls), effect),
        call_ensures(TokenRequest::set_surface, (request, client, surface_client), ()),
    ensures
        effect <==> present && controls is Some && controls->0,
        final(request).has_surface <==> old(request).has_surface || (!old(request).committed
            && surface_client is Some && surface_client->0 == client),
        final(request).committed == old(request).committed,
{
}

/// Tokens of different numbers have different texts, all of the same length.
pub proof fn tokens_have_their_own_text(left: u32, right: u32, first: String, second: String)
    requires
        call_ensures(token_text, (left,), first),
        call_ensures(token_text, (right,), second),
    ensures
        first@ == second@ ==> left == right,
{
    if first@ == second@ && left != right {
        token_names_are_distinct(left, right);
    }
}

} // verus!
