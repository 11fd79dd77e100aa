//! The windows on a Kafka topic that the inspector shows: the first
//! messages of a topic, or the latest ones as they come.

use crate::message::pairs_view;
use crate::text::{decimal, decimal_string};
use vstd::prelude::*;
use vstd::string::StringExecFns;

verus! {

/// The texts of `slots`, in order.
pub open spec fn slots_view(slots: Seq<Option<String>>) -> Seq<Option<Seq<char>>> {
    Seq::new(
        slots.len(),
        |i: int|
            match slots[i] {
                Some(text) => Some(text@),
                None => None,
            },
    )
}

/// The line that shows slot `i`: the line is cleared, then the number of the
/// slot, counted from one, and its message or `<nil>`.
pub open spec fn slot_line(i: int, slot: Option<Seq<char>>) -> Seq<char> {
    "\x1b[2K"@ + decimal((i + 1) as nat) + ") "@ + match slot {
        Some(text) => text,
        None => "<nil>"@,
    } + "\n"@
}

/// The lines that show the first `n` slots.
pub open spec fn slot_lines(slots: Seq<Option<Seq<char>>>, n: nat) -> Seq<char>
    decreases n,
{
    if n == 0 || n > slots.len() {
        Seq::empty()
    } else {
        slot_lines(slots, (n - 1) as nat) + slot_line(n - 1, slots[n - 1])
    }
}

/// What is written to the terminal to show the slots: a line for each, then
/// the rest of the screen is cleared.
pub open spec fn display_text(slots: Seq<Option<Seq<char>>>) -> Seq<char> {
    slot_lines(slots, slots.len()) + "\x1b[J"@
}

/// Writes the display of `messages`.
pub fn render_display(messages: &Vec<Option<String>>) -> (r: String)
    ensures
        r@ == display_text(slots_view(messages@)),
{
    let ghost slots = slots_view(messages@);
    let mut out = String::new();
    let mut i: usize = 0;
    while i < messages.len()
        invariant
            i <= messages.len(),
            slots == slots_view(messages@),
            out@ == slot_lines(slots, i as nat),
        decreases messages.len() - i,
    {
        out.append("\x1b[2K");
        out.append(decimal_string(i as u64 + 1).as_str());
        out.append(") ");
        match &messages[i] {
            Some(content) => out.append(content.as_str()),
            None => out.append("<nil>"),
        }
        out.append("\n");
        i += 1;
    }
    out.append("\x1b[J");
    out
}

/// The first messages of a topic: slots that fill from the top.
pub struct HeadWindow {
    messages: Vec<Option<String>>,
    received: usize,
}

/// The mathematical value of a [`HeadWindow`].
pub ghost struct HeadView {
    pub slots: Seq<Option<Seq<char>>>,
    pub received: nat,
}

impl View for HeadWindow {
    type V = HeadView;

    closed spec fn view(&self) -> HeadView {
        HeadView { slots: slots_view(self.messages@), received: self.received as nat }
    }
}

/// The window once `text` came.
pub open spec fn head_pushed(w: HeadView, text: Seq<char>) -> HeadView {
    if w.received < w.slots.len() {
        HeadView { slots: w.slots.update(w.received as int, Some(text)), received: w.received + 1 }
    } else {
        w
    }
}

/// `n` slots without a message.
fn empty_slots(n: usize) -> (r: Vec<Option<String>>)
    ensures
        slots_view(r@) == Seq::new(n as nat, |i: int| None::<Seq<char>>),
{
    let mut slots: Vec<Option<String>> = Vec::new();
    let mut i: usize = 0;
    while i < n
        invariant
            i <= n,
            slots.len() == i,
            forall|j: int| 0 <= j < i ==> (#[trigger] slots[j]) is None,
        decreases n - i,
    {
        slots.push(None);
        i += 1;
    }
    slots
}

impl HeadWindow {
    /// A window on the first `n` messages, all slots empty.
    pub fn new(n: usize) -> (r: HeadWindow)
        ensures
            r@ == (HeadView { slots: Seq::new(n as nat, |i: int| None::<Seq<char>>), received: 0 }),
    {
        HeadWindow { messages: empty_slots(n), received: 0 }
    }

    /// Puts `text` into the next free slot, where there is one. Says whether
    /// all slots are filled.
    pub fn push(&mut self, text: String) -> (full: bool)
        ensures
            final(self)@ == head_pushed(old(self)@, text@),
            full == (final(self)@.received >= final(self)@.slots.len()),
    {
        if self.received < self.messages.len() {
            let ghost before = slots_view(self.messages@);
            self.messages.set(self.received, Some(text));
            self.received = self.received + 1;
            proof {
                assert(slots_view(self.messages@) =~= before.update(
                    self.received - 1,
                    Some(text@),
                ));
            }
        }
        self.received >= self.messages.len()
    }

    /// The slots as they are shown.
    pub fn slots(&self) -> (r: &Vec<Option<String>>)
        ensures
            slots_view(r@) == self@.slots,
    {
        &self.messages
    }
}

/// The latest messages of a topic: a ring of slots that shows the oldest
/// message it holds first.
pub struct TailWindow {
    messages: Vec<Option<String>>,
    next_slot: usize,
    wrapped: bool,
}

/// The mathematical value of a [`TailWindow`].
pub ghost struct TailView {
    /// The slots of the ring.
    pub slots: Seq<Option<Seq<char>>>,
    /// The slot that the next message goes to.
    pub next_slot: nat,
    /// Whether more messages came than there are slots.
    pub wrapped: bool,
}

impl View for TailWindow {
    type V = TailView;

    closed spec fn view(&self) -> TailView {
        TailView {
            slots: slots_view(self.messages@),
            next_slot: self.next_slot as nat,
            wrapped: self.wrapped,
        }
    }
}

/// The window once `text` came: it takes the next slot of the ring, which
/// after the last slot is the first again.
pub open spec fn tail_pushed(w: TailView, text: Seq<char>) -> TailView {
    if w.next_slot >= w.slots.len() {
        w
    } else {
        tail_stored(w, text)
    }
}

/// The window once `text` was put into the slot that was next.
pub open spec fn tail_stored(w: TailView, text: Seq<char>) -> TailView {
    TailView {
        slots: w.slots.update(w.next_slot as int, Some(text)),
        next_slot: if w.next_slot + 1 >= w.slots.len() {
            0
        } else {
            w.next_slot + 1
        },
        wrapped: w.wrapped || (w.next_slot == 0 && w.slots[0] is Some),
    }
}

/// The slots in the order in which they are shown: as they stand while the
/// ring has not wrapped, and from the oldest message on once it has.
pub open spec fn tail_shown(w: TailView) -> Seq<Option<Seq<char>>> {
    if w.wrapped && w.next_slot < w.slots.len() {
        Seq::new(w.slots.len(), |i: int| w.slots[(w.next_slot + i) % (w.slots.len() as int)])
    } else {
        w.slots
    }
}

/// A fresh window of `n` slots once the messages `texts` came, in order.
pub open spec fn tail_after(n: nat, texts: Seq<Seq<char>>) -> TailView
    decreases texts.len(),
{
    if texts.len() == 0 {
        TailView { slots: Seq::new(n, |i: int| None::<Seq<char>>), next_slot: 0, wrapped: false }
    } else {
        tail_pushed(tail_after(n, texts.drop_last()), texts.last())
    }
}

/// The latest `n` of `texts`, oldest first; where there are fewer than `n`,
/// all of them, and empty slots behind them.
pub open spec fn latest(n: nat, texts: Seq<Seq<char>>) -> Seq<Option<Seq<char>>> {
    Seq::new(
        n,
        |i: int|
            if texts.len() > n {
                Some(texts[texts.len() - n + i])
            } else if i < texts.len() {
                Some(texts[i])
            } else {
                None
            },
    )
}

/// Two messages less than `n` apart go to different slots of a ring of `n`.
proof fn lemma_slots_differ(n: int, a: int, b: int)
    requires
        n > 0,
        0 <= b < a,
        a - b < n,
    ensures
        a % n != b % n,
{
    vstd::arithmetic::div_mod::lemma_mod_equivalence(a, b, n);
    vstd::arithmetic::div_mod::lemma_small_mod((a - b) as nat, n as nat);
}

/// The slot after the slot of message `a` is the slot of message `a + 1`.
proof fn lemma_next_slot(n: int, a: int)
    requires
        n > 0,
        a >= 0,
    ensures
        (a + 1) % n == if a % n + 1 >= n {
            0
        } else {
            a % n + 1
        },
{
    vstd::arithmetic::div_mod::lemma_fundamental_div_mod(a, n);
    vstd::arithmetic::div_mod::lemma_mod_bound(a, n);
    let q = a / n;
    let r = a % n;
    if r + 1 >= n {
        assert(a + 1 == (q + 1) * n + 0) by (nonlinear_arith)
            requires
                a == n * q + r,
                r + 1 == n,
        ;
        vstd::arithmetic::div_mod::lemma_fundamental_div_mod_converse(a + 1, n, q + 1, 0);
    } else {
        assert(a + 1 == q * n + (r + 1)) by (nonlinear_arith)
            requires
                a == n * q + r,
        ;
        vstd::arithmetic::div_mod::lemma_fundamental_div_mod_converse(a + 1, n, q, r + 1);
    }
}

/// Where the ring stands once `texts` came: each of the latest `n` messages
/// is in the slot of its number, the slots beyond the messages are empty,
/// and the ring has wrapped exactly when more than `n` messages came.
proof fn lemma_tail_state(n: nat, texts: Seq<Seq<char>>)
    requires
        n > 0,
    ensures
        ({
            let w = tail_after(n, texts);
            let m = texts.len() as int;
            &&& w.slots.len() == n
            &&& w.next_slot == m % (n as int)
            &&& w.wrapped == (m > n)
            &&& forall|j: int|
                0 <= j < m && m - n <= j ==> w.slots[j % (n as int)] == Some(#[trigger] texts[j])
            &&& forall|s: int| m <= s < n ==> (#[trigger] w.slots[s]) is None
        }),
    decreases texts.len(),
{
    let w = tail_after(n, texts);
    let m = texts.len() as int;
    let size = n as int;
    if m == 0 {
        vstd::arithmetic::div_mod::lemma_small_mod(0, n);
    } else {
        let before = texts.drop_last();
        let w0 = tail_after(n, before);
        lemma_tail_state(n, before);
        vstd::arithmetic::div_mod::lemma_mod_bound(m - 1, size);
        lemma_next_slot(size, m - 1);
        assert(w == tail_stored(w0, texts.last()));
        assert forall|j: int| 0 <= j < m && m - n <= j implies w.slots[j % size] == Some(
            #[trigger] texts[j],
        ) by {
            vstd::arithmetic::div_mod::lemma_mod_bound(j, size);
            if j < m - 1 {
                lemma_slots_differ(size, m - 1, j);
                assert(before[j] == texts[j]);
            }
        }
        assert forall|s: int| m <= s < n implies (#[trigger] w.slots[s]) is None by {
            vstd::arithmetic::div_mod::lemma_small_mod((m - 1) as nat, n);
            assert(w0.slots[s] is None);
        }
        if (m - 1) % size == 0 {
            if m - 1 == 0 {
                assert(w0.slots[0] is None);
            } else {
                if m - 1 < n {
                    vstd::arithmetic::div_mod::lemma_small_mod((m - 1) as nat, n);
                }
                vstd::arithmetic::div_mod::lemma_mod_sub_multiples_vanish(m - 1, size);
                assert(w0.slots[(m - 1 - n) % size] == Some(before[m - 1 - n]));
            }
        } else {
            if m - 1 == n {
                vstd::arithmetic::div_mod::lemma_mod_self_0(size);
            }
        }
    }
}

/// A window of `n` slots shows the latest `n` of the messages that came,
/// oldest first; while fewer than `n` came, it shows all of them and empty
/// slots behind them.
pub proof fn lemma_tail_shows_latest(n: nat, texts: Seq<Seq<char>>)
    requires
        n > 0,
    ensures
        tail_shown(tail_after(n, texts)) == latest(n, texts),
{
    let w = tail_after(n, texts);
    let m = texts.len() as int;
    let size = n as int;
    lemma_tail_state(n, texts);
    vstd::arithmetic::div_mod::lemma_mod_bound(m, size);
    assert forall|i: int| 0 <= i < n implies tail_shown(w)[i] == latest(n, texts)[i] by {
        if m > n {
            vstd::arithmetic::div_mod::lemma_add_mod_noop_right(i, m, size);
            vstd::arithmetic::div_mod::lemma_mod_sub_multiples_vanish(m + i, size);
            assert((m % size + i) % size == (m - n + i) % size);
            assert(w.slots[(m - n + i) % size] == Some(texts[m - n + i]));
        } else if i < m {
            vstd::arithmetic::div_mod::lemma_small_mod(i as nat, n);
            assert(w.slots[i % size] == Some(texts[i]));
        } else {
            assert(w.slots[i] is None);
        }
    }
    assert(tail_shown(w) =~= latest(n, texts));
}

impl TailWindow {
    /// A window on the latest `n` messages, all slots empty.
    pub fn new(n: usize) -> (r: TailWindow)
        requires
            n > 0,
        ensures
            r@ == (TailView {
                slots: Seq::new(n as nat, |i: int| None::<Seq<char>>),
                next_slot: 0,
                wrapped: false,
            }),
    {
        TailWindow { messages: empty_slots(n), next_slot: 0, wrapped: false }
    }

    /// Puts `text` into the ring.
    pub fn push(&mut self, text: String)
        ensures
            final(self)@ == tail_pushed(old(self)@, text@),
    {
        let ghost before = slots_view(self.messages@);
        if self.next_slot >= self.messages.len() {
            return ;
        }
        if self.next_slot == 0 && self.messages[0].is_some() {
            self.wrapped = true;
        }
        let slot = self.next_slot;
        self.messages.set(slot, Some(text));
        proof {
            assert(slots_view(self.messages@) =~= before.update(slot as int, Some(text@)));
        }
        self.next_slot = if slot + 1 >= self.messages.len() {
            0
        } else {
            slot + 1
        };
    }

    /// The slots in the order in which they are shown.
    pub fn shown(&self) -> (r: Vec<Option<String>>)
        ensures
            slots_view(r@) == tail_shown(self@),
    {
        let n = self.messages.len();
        let turned = self.wrapped && self.next_slot < n;
        let mut out: Vec<Option<String>> = Vec::new();
        let mut i: usize = 0;
        while i < n
            invariant
                i <= n,
                n == self.messages.len(),
                turned == (self.wrapped && self.next_slot < n),
                out.len() == i,
                forall|j: int|
                    0 <= j < i ==> slots_view(out@)[j] == slots_view(self.messages@)[if turned {
                        (self.next_slot + j) % (n as int)
                    } else {
                        j
                    }],
            decreases n - i,
        {
            let at = if turned {
                let rest = n - self.next_slot;
                if i < rest {
                    self.next_slot + i
                } else {
                    i - rest
                }
            } else {
                i
            };
            proof {
                if turned {
                    let sum = self.next_slot + i;
                    assert(at == sum % (n as int)) by (nonlinear_arith)
                        requires
                            0 <= at < n,
                            at == sum || at == sum - n,
                    ;
                }
            }
            let copy = match &self.messages[at] {
                Some(text) => Some(text.clone()),
                None => None,
            };
            let ghost before = out@;
            out.push(copy);
            proof {
                assert forall|j: int| 0 <= j < i + 1 implies slots_view(out@)[j] == slots_view(
                    self.messages@,
                )[if turned {
                    (self.next_slot + j) % (n as int)
                } else {
                    j
                }] by {
                    if j < i {
                        assert(slots_view(before)[j] == slots_view(out@)[j]);
                    }
                }
            }
            i += 1;
        }
        out
    }
}

/// The settings of the consumer that reads a topic from its beginning.
pub fn head_settings(broker: &str, group: &str) -> (r: Vec<(String, String)>)
    ensures
        pairs_view(r@) == seq![
            ("group.id"@, group@),
            ("bootstrap.servers"@, broker@),
            ("enable.auto.commit"@, "false"@),
            ("auto.offset.reset"@, "earliest"@),
            ("fetch.min.bytes"@, "1"@),
            ("fetch.wait.max.ms"@, "100"@),
        ],
{
    let mut settings: Vec<(String, String)> = Vec::new();
    settings.push((String::from_str("group.id"), String::from_str(group)));
    settings.push((String::from_str("bootstrap.servers"), String::from_str(broker)));
    settings.push((String::from_str("enable.auto.commit"), String::from_str("false")));
    settings.push((String::from_str("auto.offset.reset"), String::from_str("earliest")));
    settings.push((String::from_str("fetch.min.bytes"), String::from_str("1")));
    settings.push((String::from_str("fetch.wait.max.ms"), String::from_str("100")));
    settings
}

/// The settings of the consumer that follows a topic from its end.
pub fn tail_settings(broker: &str, group: &str) -> (r: Vec<(String, String)>)
    ensures
        pairs_view(r@) == seq![
            ("group.id"@, group@),
            ("bootstrap.servers"@, broker@),
            ("enable.auto.commit"@, "true"@),
            ("auto.offset.reset"@, "latest"@),
            ("fetch.min.bytes"@, "1"@),
            ("fetch.wait.max.ms"@, "50"@),
            ("session.timeout.ms"@, "6000"@),
            ("heartbeat.interval.ms"@, "2000"@),
        ],
{
    let mut settings: Vec<(String, String)> = Vec::new();
    settings.push((String::from_str("group.id"), String::from_str(group)));
    settings.push((String::from_str("bootstrap.servers"), String::from_str(broker)));
    settings.push((String::from_str("enable.auto.commit"), String::from_str("true")));
    settings.push((String::from_str("auto.offset.reset"), String::from_str("latest")));
    settings.push((String::from_str("fetch.min.bytes"), String::from_str("1")));
    settings.push((String::from_str("fetch.wait.max.ms"), String::from_str("50")));
    settings.push((String::from_str("session.timeout.ms"), String::from_str("6000")));
    settings.push((String::from_str("heartbeat.interval.ms"), String::from_str("2000")));
    settings
}

} // verus!
