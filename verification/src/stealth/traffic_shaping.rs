use vstd::prelude::*;
use vstd::string::*;
use crate::crypto::kdf::extend_bytes;
use crate::stealth::entropy::{
    delay_in_range, delay_pick, range_pick, value_in_range, EntropySource,
};

verus! {

/// What the shaped traffic currently imitates.
#[derive(Debug, Clone, Copy, PartialEq, Eq, Structural)]
pub enum TrafficState {
    Idle,
    PageLoad,
    Streaming,
    Interactive,
    BurstDownload,
}

/// A range of packet sizes, drawn with the given weight.
#[derive(Debug, Clone, Copy)]
pub struct SizeBucket {
    pub min: u16,
    pub max: u16,
    pub weight: u16,
}

/// A range of delays in microseconds, drawn with the given weight.
#[derive(Debug, Clone, Copy)]
pub struct DelayBucket {
    pub min_us: u64,
    pub max_us: u64,
    pub weight: u16,
}

/// A move to another state, taken with the given weight.
#[derive(Debug, Clone, Copy)]
pub struct Transition {
    pub to: TrafficState,
    pub weight: u16,
}

// ---------------------------------------------------------------------------
// Weighted draws

/// The sum of the weights.
pub open spec fn weight_sum(ws: Seq<u16>) -> int
    decreases ws.len(),
{
    if ws.len() == 0 {
        0
    } else {
        weight_sum(ws.drop_last()) + ws.last()
    }
}

/// The first index at or after `i` whose running weight total passes `roll`; the length
/// where none does.
pub open spec fn pick_from(ws: Seq<u16>, roll: int, i: int) -> int
    decreases ws.len() - i,
{
    if i < 0 || i >= ws.len() {
        ws.len() as int
    } else if weight_sum(ws.take(i + 1)) > roll {
        i
    } else {
        pick_from(ws, roll, i + 1)
    }
}

/// The entry that a roll lands on.
pub open spec fn pick(ws: Seq<u16>, roll: int) -> int {
    pick_from(ws, roll, 0)
}

/// The largest roll a draw over the weights makes: one less than their sum, kept to 16 bits.
pub open spec fn max_roll(ws: Seq<u16>) -> int {
    (weight_sum(ws) - 1) % 65536
}

/// Whether a weighted draw over the weights can land on entry `i`.
pub open spec fn chosen(ws: Seq<u16>, i: int) -> bool {
    exists|roll: int| 0 <= roll <= max_roll(ws) && #[trigger] pick(ws, roll) == i
}

/// Whether `r` is what a draw between the bounds can give: the lower bound where the range
/// is empty.
pub open spec fn in_draw_range(min: int, max: int, r: int) -> bool {
    if min >= max {
        r == min
    } else {
        min <= r <= max
    }
}

proof fn lemma_weight_sum_take_mono(ws: Seq<u16>, i: int, j: int)
    requires
        0 <= i <= j <= ws.len(),
    ensures
        weight_sum(ws.take(i)) <= weight_sum(ws.take(j)),
    decreases j - i,
{
    if i < j {
        assert(ws.take(j).drop_last() =~= ws.take(j - 1));
        lemma_weight_sum_take_mono(ws, i, j - 1);
    }
}

proof fn lemma_weight_sum_bound(ws: Seq<u16>)
    ensures
        0 <= weight_sum(ws) <= 65535 * ws.len(),
    decreases ws.len(),
{
    if ws.len() > 0 {
        lemma_weight_sum_bound(ws.drop_last());
    }
}

proof fn lemma_pick_from(ws: Seq<u16>, roll: int, i: int)
    requires
        0 <= i <= ws.len(),
        weight_sum(ws.take(i)) <= roll < weight_sum(ws),
    ensures
        i <= pick_from(ws, roll, i) < ws.len(),
        ws[pick_from(ws, roll, i)] > 0,
    decreases ws.len() - i,
{
    if i == ws.len() {
        assert(ws.take(i) =~= ws);
    } else {
        assert(ws.take(i + 1).drop_last() =~= ws.take(i));
        if weight_sum(ws.take(i + 1)) <= roll {
            lemma_pick_from(ws, roll, i + 1);
        }
    }
}

/// A weighted draw only lands on an entry that exists and has a positive weight.
pub proof fn lemma_chosen_has_weight(ws: Seq<u16>, i: int)
    requires
        weight_sum(ws) > 0,
        chosen(ws, i),
    ensures
        0 <= i < ws.len(),
        ws[i] > 0,
{
    let roll = choose|roll: int| 0 <= roll <= max_roll(ws) && #[trigger] pick(ws, roll) == i;
    assert(ws.take(0) =~= Seq::<u16>::empty());
    assert(weight_sum(Seq::<u16>::empty()) == 0);
    lemma_pick_from(ws, roll, 0);
}

/// The sum of the weights, with each running total shown not to pass the sum.
pub fn weight_total(ws: &[u16]) -> (r: u32)
    requires
        ws@.len() <= 65536,
    ensures
        r == weight_sum(ws@),
{
    proof {
        lemma_weight_sum_bound(ws@);
    }
    let mut total: u32 = 0;
    let mut k: usize = 0;
    while k < ws.len()
        invariant
            k <= ws@.len(),
            ws@.len() <= 65536,
            total == weight_sum(ws@.take(k as int)),
            weight_sum(ws@) <= 65535 * 65536,
        decreases ws@.len() - k,
    {
        proof {
            assert(ws@.take(k + 1).drop_last() =~= ws@.take(k as int));
            lemma_weight_sum_take_mono(ws@, k + 1, ws@.len() as int);
            assert(ws@.take(ws@.len() as int) =~= ws@);
        }
        total = total + ws[k] as u32;
        k = k + 1;
    }
    proof {
        assert(ws@.take(ws@.len() as int) =~= ws@);
    }
    total
}

/// The entry that `roll` lands on: the first whose running total of weights passes it;
/// `None` where no total does (the weights sum to zero, or the roll is past their sum).
pub fn weighted_index(ws: &[u16], roll: u16) -> (r: Option<usize>)
    requires
        ws@.len() <= 65536,
    ensures
        r == (if pick(ws@, roll as int) < ws@.len() {
            Some(pick(ws@, roll as int) as usize)
        } else {
            None::<usize>
        }),
        roll < weight_sum(ws@) <==> r is Some,
        0 <= pick(ws@, roll as int) <= ws@.len(),
        r matches Some(i) ==> i < ws@.len() && i as int == pick(ws@, roll as int),
{
    proof {
        lemma_weight_sum_bound(ws@);
        lemma_pick_from_bounds(ws@, roll as int, 0);
    }
    let mut acc: u32 = 0;
    let mut i: usize = 0;
    while i < ws.len()
        invariant
            i <= ws@.len(),
            ws@.len() <= 65536,
            weight_sum(ws@) <= 65535 * 65536,
            acc == weight_sum(ws@.take(i as int)),
            acc <= roll,
            pick(ws@, roll as int) == pick_from(ws@, roll as int, i as int),
        decreases ws@.len() - i,
    {
        proof {
            assert(ws@.take(i + 1).drop_last() =~= ws@.take(i as int));
            lemma_weight_sum_take_mono(ws@, i + 1, ws@.len() as int);
            assert(ws@.take(ws@.len() as int) =~= ws@);
        }
        acc = acc + ws[i] as u32;
        if (roll as u32) < acc {
            proof {
                lemma_weight_sum_take_mono(ws@, i + 1, ws@.len() as int);
                assert(ws@.take(ws@.len() as int) =~= ws@);
            }
            return Some(i);
        }
        i = i + 1;
    }
    proof {
        assert(ws@.take(ws@.len() as int) =~= ws@);
    }
    None
}

/// Where a roll lands: never before the entry the search starts at, and at the end only
/// where no running total from there passes the roll.
proof fn lemma_pick_from_bounds(ws: Seq<u16>, roll: int, i: int)
    requires
        0 <= i <= ws.len(),
    ensures
        i <= pick_from(ws, roll, i) <= ws.len(),
    decreases ws.len() - i,
{
    if i < ws.len() && weight_sum(ws.take(i + 1)) <= roll {
        lemma_pick_from_bounds(ws, roll, i + 1);
    }
}

/// A roll no larger than the draw's largest lands on an entry of positive weight, which a
/// draw can therefore give.
proof fn lemma_roll_lands(ws: Seq<u16>, roll: int)
    requires
        weight_sum(ws) > 0,
        0 <= roll <= max_roll(ws),
    ensures
        0 <= pick(ws, roll) < ws.len(),
        ws[pick(ws, roll)] > 0,
        chosen(ws, pick(ws, roll)),
{
    assert(ws.take(0) =~= Seq::<u16>::empty());
    assert(weight_sum(Seq::<u16>::empty()) == 0);
    lemma_pick_from(ws, roll, 0);
}

// ---------------------------------------------------------------------------
// Profiles

/// How traffic in one state looks: sizes, gaps and how many packets the state lasts.
#[derive(Debug, Clone)]
pub struct StateProfile {
    pub size_buckets: Vec<SizeBucket>,
    pub delay_buckets: Vec<DelayBucket>,
    pub min_packets: u32,
    pub max_packets: u32,
}

pub struct StateProfileView {
    pub size_buckets: Seq<SizeBucket>,
    pub delay_buckets: Seq<DelayBucket>,
    pub min_packets: u32,
    pub max_packets: u32,
}

impl View for StateProfile {
    type V = StateProfileView;

    open spec fn view(&self) -> StateProfileView {
        StateProfileView {
            size_buckets: self.size_buckets@,
            delay_buckets: self.delay_buckets@,
            min_packets: self.min_packets,
            max_packets: self.max_packets,
        }
    }
}

/// A model of a browser's traffic: one profile per state and the moves between states.
#[derive(Debug, Clone)]
pub struct TrafficProfile {
    pub name: String,
    pub idle: StateProfile,
    pub page_load: StateProfile,
    pub streaming: StateProfile,
    pub interactive: StateProfile,
    pub burst_download: StateProfile,
    pub transitions: Vec<(TrafficState, Vec<Transition>)>,
}

pub struct TrafficProfileView {
    pub name: Seq<char>,
    pub idle: StateProfileView,
    pub page_load: StateProfileView,
    pub streaming: StateProfileView,
    pub interactive: StateProfileView,
    pub burst_download: StateProfileView,
    pub transitions: Seq<(TrafficState, Seq<Transition>)>,
}

impl View for TrafficProfile {
    type V = TrafficProfileView;

    open spec fn view(&self) -> TrafficProfileView {
        TrafficProfileView {
            name: self.name@,
            idle: self.idle@,
            page_load: self.page_load@,
            streaming: self.streaming@,
            interactive: self.interactive@,
            burst_download: self.burst_download@,
            transitions: self.transitions@.map_values(
                |e: (TrafficState, Vec<Transition>)| (e.0, e.1@),
            ),
        }
    }
}

/// The profile of one state.
pub open spec fn state_view(p: TrafficProfileView, state: TrafficState) -> StateProfileView {
    match state {
        TrafficState::Idle => p.idle,
        TrafficState::PageLoad => p.page_load,
        TrafficState::Streaming => p.streaming,
        TrafficState::Interactive => p.interactive,
        TrafficState::BurstDownload => p.burst_download,
    }
}

/// The moves listed for a state at or after entry `i`: those of the first entry for it.
pub open spec fn transitions_for_from(
    ts: Seq<(TrafficState, Seq<Transition>)>,
    state: TrafficState,
    i: int,
) -> Seq<Transition>
    decreases ts.len() - i,
{
    if i < 0 || i >= ts.len() {
        Seq::empty()
    } else if ts[i].0 == state {
        ts[i].1
    } else {
        transitions_for_from(ts, state, i + 1)
    }
}

/// The moves listed for a state: those of its first entry, none where it has none.
pub open spec fn transitions_for(p: TrafficProfileView, state: TrafficState) -> Seq<Transition> {
    transitions_for_from(p.transitions, state, 0)
}

pub open spec fn size_weights(b: Seq<SizeBucket>) -> Seq<u16> {
    Seq::new(b.len(), |i: int| b[i].weight)
}

pub open spec fn delay_weights(b: Seq<DelayBucket>) -> Seq<u16> {
    Seq::new(b.len(), |i: int| b[i].weight)
}

pub open spec fn transition_weights(t: Seq<Transition>) -> Seq<u16> {
    Seq::new(t.len(), |i: int| t[i].weight)
}

/// Whether the engine can work with the profile without running past its limits: no list
/// longer than 65536 entries, and no delay range that spans every `u64`.
pub open spec fn state_usable(sp: StateProfileView) -> bool {
    &&& sp.size_buckets.len() <= 65536
    &&& sp.delay_buckets.len() <= 65536
    &&& forall|i: int|
        0 <= i < sp.delay_buckets.len() ==> !(#[trigger] sp.delay_buckets[i].min_us == 0
            && sp.delay_buckets[i].max_us == u64::MAX)
}

pub open spec fn profile_usable(p: TrafficProfileView) -> bool {
    &&& state_usable(p.idle)
    &&& state_usable(p.page_load)
    &&& state_usable(p.streaming)
    &&& state_usable(p.interactive)
    &&& state_usable(p.burst_download)
    &&& forall|i: int| 0 <= i < p.transitions.len() ==> (#[trigger] p.transitions[i]).1.len() <= 65536
}

pub open spec fn chrome_idle() -> StateProfileView {
    StateProfileView {
        size_buckets: seq![
            SizeBucket { min: 40, max: 100, weight: 70 },
            SizeBucket { min: 100, max: 300, weight: 30 },
        ],
        delay_buckets: seq![
            DelayBucket { min_us: 200000, max_us: 1000000, weight: 40 },
            DelayBucket { min_us: 1000000, max_us: 5000000, weight: 50 },
            DelayBucket { min_us: 5000000, max_us: 30000000, weight: 10 },
        ],
        min_packets: 1,
        max_packets: 5,
    }
}

pub open spec fn chrome_page_load() -> StateProfileView {
    StateProfileView {
        size_buckets: seq![
            SizeBucket { min: 40, max: 200, weight: 15 },
            SizeBucket { min: 200, max: 800, weight: 35 },
            SizeBucket { min: 800, max: 1400, weight: 40 },
            SizeBucket { min: 1400, max: 1500, weight: 10 },
        ],
        delay_buckets: seq![
            DelayBucket { min_us: 50, max_us: 500, weight: 25 },
            DelayBucket { min_us: 500, max_us: 5000, weight: 40 },
            DelayBucket { min_us: 5000, max_us: 50000, weight: 25 },
            DelayBucket { min_us: 50000, max_us: 200000, weight: 10 },
        ],
        min_packets: 20,
        max_packets: 200,
    }
}

pub open spec fn chrome_streaming() -> StateProfileView {
    StateProfileView {
        size_buckets: seq![
            SizeBucket { min: 40, max: 100, weight: 10 },
            SizeBucket { min: 1200, max: 1400, weight: 70 },
            SizeBucket { min: 1400, max: 1500, weight: 20 },
        ],
        delay_buckets: seq![
            DelayBucket { min_us: 5000, max_us: 20000, weight: 60 },
            DelayBucket { min_us: 20000, max_us: 50000, weight: 30 },
            DelayBucket { min_us: 50000, max_us: 100000, weight: 10 },
        ],
        min_packets: 50,
        max_packets: 500,
    }
}

pub open spec fn chrome_interactive() -> StateProfileView {
    StateProfileView {
        size_buckets: seq![
            SizeBucket { min: 40, max: 200, weight: 40 },
            SizeBucket { min: 200, max: 600, weight: 40 },
            SizeBucket { min: 600, max: 1200, weight: 20 },
        ],
        delay_buckets: seq![
            DelayBucket { min_us: 10000, max_us: 100000, weight: 50 },
            DelayBucket { min_us: 100000, max_us: 500000, weight: 35 },
            DelayBucket { min_us: 500000, max_us: 2000000, weight: 15 },
        ],
        min_packets: 5,
        max_packets: 50,
    }
}

pub open spec fn chrome_burst_download() -> StateProfileView {
    StateProfileView {
        size_buckets: seq![
            SizeBucket { min: 40, max: 100, weight: 5 },
            SizeBucket { min: 1400, max: 1500, weight: 95 },
        ],
        delay_buckets: seq![
            DelayBucket { min_us: 10, max_us: 200, weight: 70 },
            DelayBucket { min_us: 200, max_us: 2000, weight: 30 },
        ],
        min_packets: 100,
        max_packets: 1000,
    }
}

pub open spec fn chrome_transitions() -> Seq<(TrafficState, Seq<Transition>)> {
    seq![
        (TrafficState::Idle, seq![
            Transition { to: TrafficState::PageLoad, weight: 70 },
            Transition { to: TrafficState::Interactive, weight: 20 },
            Transition { to: TrafficState::Idle, weight: 10 },
        ]),
        (TrafficState::PageLoad, seq![
            Transition { to: TrafficState::Streaming, weight: 30 },
            Transition { to: TrafficState::Interactive, weight: 25 },
            Transition { to: TrafficState::BurstDownload, weight: 10 },
            Transition { to: TrafficState::Idle, weight: 35 },
        ]),
        (TrafficState::Streaming, seq![
            Transition { to: TrafficState::Idle, weight: 20 },
            Transition { to: TrafficState::Interactive, weight: 15 },
            Transition { to: TrafficState::Streaming, weight: 65 },
        ]),
        (TrafficState::Interactive, seq![
            Transition { to: TrafficState::PageLoad, weight: 40 },
            Transition { to: TrafficState::Idle, weight: 40 },
            Transition { to: TrafficState::Interactive, weight: 20 },
        ]),
        (TrafficState::BurstDownload, seq![
            Transition { to: TrafficState::Idle, weight: 50 },
            Transition { to: TrafficState::Interactive, weight: 30 },
            Transition { to: TrafficState::PageLoad, weight: 20 },
        ]),
    ]
}

/// The Chrome-over-HTTP/3 traffic model.
pub open spec fn chrome_h3_view() -> TrafficProfileView {
    TrafficProfileView {
        name: "chrome_h3"@,
        idle: chrome_idle(),
        page_load: chrome_page_load(),
        streaming: chrome_streaming(),
        interactive: chrome_interactive(),
        burst_download: chrome_burst_download(),
        transitions: chrome_transitions(),
    }
}

pub open spec fn firefox_page_load_sizes() -> Seq<SizeBucket> {
    seq![
        SizeBucket { min: 40, max: 200, weight: 20 },
        SizeBucket { min: 200, max: 700, weight: 30 },
        SizeBucket { min: 700, max: 1300, weight: 35 },
        SizeBucket { min: 1300, max: 1500, weight: 15 },
    ]
}

/// The Firefox-over-HTTP/3 traffic model: Chrome's, with other page-load sizes.
pub open spec fn firefox_h3_view() -> TrafficProfileView {
    TrafficProfileView {
        name: "firefox_h3"@,
        page_load: StateProfileView { size_buckets: firefox_page_load_sizes(), ..chrome_page_load() },
        ..chrome_h3_view()
    }
}

impl TrafficProfile {
    fn state_profile(&self, state: TrafficState) -> (r: &StateProfile)
        ensures
            r@ == state_view(self@, state),
    {
        match state {
            TrafficState::Idle => &self.idle,
            TrafficState::PageLoad => &self.page_load,
            TrafficState::Streaming => &self.streaming,
            TrafficState::Interactive => &self.interactive,
            TrafficState::BurstDownload => &self.burst_download,
        }
    }

    fn transitions_from(&self, state: TrafficState) -> (r: &[Transition])
        ensures
            r@ == transitions_for(self@, state),
    {
        let mut i: usize = 0;
        while i < self.transitions.len()
            invariant
                i <= self.transitions@.len(),
                transitions_for(self@, state) == transitions_for_from(self@.transitions, state, i as int),
            decreases self.transitions@.len() - i,
        {
            let entry = &self.transitions[i];
            if entry.0 == state {
                return entry.1.as_slice();
            }
            i = i + 1;
        }
        &[]
    }

    pub fn chrome_h3() -> (r: Self)
        ensures
            r@ == chrome_h3_view(),
    {
        let p = TrafficProfile {
            name: String::from_str("chrome_h3"),
            idle: StateProfile {
                size_buckets: vec![
                    SizeBucket { min: 40, max: 100, weight: 70 },
                    SizeBucket { min: 100, max: 300, weight: 30 },
                ],
                delay_buckets: vec![
                    DelayBucket { min_us: 200000, max_us: 1000000, weight: 40 },
                    DelayBucket { min_us: 1000000, max_us: 5000000, weight: 50 },
                    DelayBucket { min_us: 5000000, max_us: 30000000, weight: 10 },
                ],
                min_packets: 1,
                max_packets: 5,
            },
            page_load: StateProfile {
                size_buckets: vec![
                    SizeBucket { min: 40, max: 200, weight: 15 },
                    SizeBucket { min: 200, max: 800, weight: 35 },
                    SizeBucket { min: 800, max: 1400, weight: 40 },
                    SizeBucket { min: 1400, max: 1500, weight: 10 },
                ],
                delay_buckets: vec![
                    DelayBucket { min_us: 50, max_us: 500, weight: 25 },
                    DelayBucket { min_us: 500, max_us: 5000, weight: 40 },
                    DelayBucket { min_us: 5000, max_us: 50000, weight: 25 },
                    DelayBucket { min_us: 50000, max_us: 200000, weight: 10 },
                ],
                min_packets: 20,
                max_packets: 200,
            },
            streaming: StateProfile {
                size_buckets: vec![
                    SizeBucket { min: 40, max: 100, weight: 10 },
                    SizeBucket { min: 1200, max: 1400, weight: 70 },
                    SizeBucket { min: 1400, max: 1500, weight: 20 },
                ],
                delay_buckets: vec![
                    DelayBucket { min_us: 5000, max_us: 20000, weight: 60 },
                    DelayBucket { min_us: 20000, max_us: 50000, weight: 30 },
                    DelayBucket { min_us: 50000, max_us: 100000, weight: 10 },
                ],
                min_packets: 50,
                max_packets: 500,
            },
            interactive: StateProfile {
                size_buckets: vec![
                    SizeBucket { min: 40, max: 200, weight: 40 },
                    SizeBucket { min: 200, max: 600, weight: 40 },
                    SizeBucket { min: 600, max: 1200, weight: 20 },
                ],
                delay_buckets: vec![
                    DelayBucket { min_us: 10000, max_us: 100000, weight: 50 },
                    DelayBucket { min_us: 100000, max_us: 500000, weight: 35 },
                    DelayBucket { min_us: 500000, max_us: 2000000, weight: 15 },
                ],
                min_packets: 5,
                max_packets: 50,
            },
            burst_download: StateProfile {
                size_buckets: vec![
                    SizeBucket { min: 40, max: 100, weight: 5 },
                    SizeBucket { min: 1400, max: 1500, weight: 95 },
                ],
                delay_buckets: vec![
                    DelayBucket { min_us: 10, max_us: 200, weight: 70 },
                    DelayBucket { min_us: 200, max_us: 2000, weight: 30 },
                ],
                min_packets: 100,
                max_packets: 1000,
            },
            transitions: vec![
                (TrafficState::Idle, vec![
                    Transition { to: TrafficState::PageLoad, weight: 70 },
                    Transition { to: TrafficState::Interactive, weight: 20 },
                    Transition { to: TrafficState::Idle, weight: 10 },
                ]),
                (TrafficState::PageLoad, vec![
                    Transition { to: TrafficState::Streaming, weight: 30 },
                    Transition { to: TrafficState::Interactive, weight: 25 },
                    Transition { to: TrafficState::BurstDownload, weight: 10 },
                    Transition { to: TrafficState::Idle, weight: 35 },
                ]),
                (TrafficState::Streaming, vec![
                    Transition { to: TrafficState::Idle, weight: 20 },
                    Transition { to: TrafficState::Interactive, weight: 15 },
                    Transition { to: TrafficState::Streaming, weight: 65 },
                ]),
                (TrafficState::Interactive, vec![
                    Transition { to: TrafficState::PageLoad, weight: 40 },
                    Transition { to: TrafficState::Idle, weight: 40 },
                    Transition { to: TrafficState::Interactive, weight: 20 },
                ]),
                (TrafficState::BurstDownload, vec![
                    Transition { to: TrafficState::Idle, weight: 50 },
                    Transition { to: TrafficState::Interactive, weight: 30 },
                    Transition { to: TrafficState::PageLoad, weight: 20 },
                ]),
            ],
        };
        assert(p@.transitions =~= chrome_transitions());
        p
    }

    pub fn firefox_h3() -> (r: Self)
        ensures
            r@ == firefox_h3_view(),
    {
        let mut profile = Self::chrome_h3();
        profile.name = String::from_str("firefox_h3");
        profile.page_load.size_buckets = vec![
            SizeBucket { min: 40, max: 200, weight: 20 },
            SizeBucket { min: 200, max: 700, weight: 30 },
            SizeBucket { min: 700, max: 1300, weight: 35 },
            SizeBucket { min: 1300, max: 1500, weight: 15 },
        ];
        profile
    }
}


// ---------------------------------------------------------------------------
// The engine

/// Whether `r` is a size a draw over the buckets can give: 100 where no bucket has weight.
pub open spec fn size_sampled(b: Seq<SizeBucket>, r: int) -> bool {
    if weight_sum(size_weights(b)) == 0 {
        r == 100
    } else {
        exists|i: int|
            #[trigger] chosen(size_weights(b), i) && in_draw_range(b[i].min as int, b[i].max as int, r)
    }
}

/// Whether `r` is a delay a draw over the buckets can give: 1000 where no bucket has weight.
pub open spec fn delay_sampled(b: Seq<DelayBucket>, r: int) -> bool {
    if weight_sum(delay_weights(b)) == 0 {
        r == 1000
    } else {
        exists|i: int|
            #[trigger] chosen(delay_weights(b), i) && in_draw_range(
                b[i].min_us as int,
                b[i].max_us as int,
                r,
            )
    }
}

/// Whether a state may last `limit` packets: a number drawn between the profile's bounds,
/// the draw spanning at most 65535 above the lower one.
pub open spec fn limit_fits(sp: StateProfileView, limit: int) -> bool {
    if sp.max_packets > sp.min_packets {
        sp.min_packets <= limit <= sp.min_packets + (sp.max_packets - sp.min_packets) % 65536
    } else {
        limit == sp.min_packets
    }
}

/// What a state's end does to (state, packets in it, its limit): with no moves listed the
/// count starts again; with moves of no weight nothing changes; otherwise a move drawn by
/// weight is taken, and the new state gets a fresh count and limit.
pub open spec fn transition_outcome(
    p: TrafficProfileView,
    s0: TrafficState,
    n0: int,
    l0: int,
    s1: TrafficState,
    n1: int,
    l1: int,
) -> bool {
    let ts = transitions_for(p, s0);
    if ts.len() == 0 {
        s1 == s0 && n1 == 0 && l1 == l0
    } else if weight_sum(transition_weights(ts)) == 0 {
        s1 == s0 && n1 == n0 && l1 == l0
    } else {
        &&& n1 == 0
        &&& limit_fits(state_view(p, s1), l1)
        &&& exists|i: int| #[trigger] chosen(transition_weights(ts), i) && s1 == ts[i].to
    }
}

/// A packet ready to send: its bytes, how long to wait before it, and the state it belongs to.
pub struct ShapedPacket {
    pub payload: Vec<u8>,
    pub delay_us: u64,
    pub state: TrafficState,
}

/// Shapes a stream so that its sizes and gaps follow a traffic model.
pub struct TrafficShapingEngine {
    profile: TrafficProfile,
    /// The state the stream imitates now.
    pub current_state: TrafficState,
    entropy: EntropySource,
    /// Packets sent in the current state.
    pub packets_in_state: u32,
    /// How many packets the current state lasts.
    pub state_packet_limit: u32,
}

fn size_weights_of(b: &[SizeBucket]) -> (r: Vec<u16>)
    ensures
        r@ == size_weights(b@),
{
    let mut r: Vec<u16> = Vec::new();
    let mut i: usize = 0;
    while i < b.len()
        invariant
            i <= b@.len(),
            r@ == size_weights(b@).take(i as int),
        decreases b@.len() - i,
    {
        r.push(b[i].weight);
        assert(r@ =~= size_weights(b@).take(i + 1));
        i = i + 1;
    }
    assert(r@ =~= size_weights(b@));
    r
}

fn delay_weights_of(b: &[DelayBucket]) -> (r: Vec<u16>)
    ensures
        r@ == delay_weights(b@),
{
    let mut r: Vec<u16> = Vec::new();
    let mut i: usize = 0;
    while i < b.len()
        invariant
            i <= b@.len(),
            r@ == delay_weights(b@).take(i as int),
        decreases b@.len() - i,
    {
        r.push(b[i].weight);
        assert(r@ =~= delay_weights(b@).take(i + 1));
        i = i + 1;
    }
    assert(r@ =~= delay_weights(b@));
    r
}

fn transition_weights_of(t: &[Transition]) -> (r: Vec<u16>)
    ensures
        r@ == transition_weights(t@),
{
    let mut r: Vec<u16> = Vec::new();
    let mut i: usize = 0;
    while i < t.len()
        invariant
            i <= t@.len(),
            r@ == transition_weights(t@).take(i as int),
        decreases t@.len() - i,
    {
        r.push(t[i].weight);
        assert(r@ =~= transition_weights(t@).take(i + 1));
        i = i + 1;
    }
    assert(r@ =~= transition_weights(t@));
    r
}

/// The size that a roll and a random word give: with no weight at all, 100; otherwise a
/// pick by the word within the bucket the roll lands on, or the last bucket's largest size
/// where the roll is past the weights' sum.
pub open spec fn size_draw(b: Seq<SizeBucket>, roll: int, raw: u32) -> int {
    let ws = size_weights(b);
    let p = pick(ws, roll);
    if weight_sum(ws) == 0 {
        100
    } else if p < b.len() {
        range_pick(b[p].min, b[p].max, raw)
    } else {
        b.last().max as int
    }
}

/// The delay that a roll and a random word give: with no weight at all, 1000; otherwise a
/// pick by the word within the bucket the roll lands on, or the last bucket's longest delay
/// where the roll is past the weights' sum.
pub open spec fn delay_draw(b: Seq<DelayBucket>, roll: int, raw: u64) -> int {
    let ws = delay_weights(b);
    let p = pick(ws, roll);
    if weight_sum(ws) == 0 {
        1000
    } else if p < b.len() {
        delay_pick(b[p].min_us, b[p].max_us, raw)
    } else {
        b.last().max_us as int
    }
}

/// The state that a roll moves to: that of the move the roll lands on; the current one
/// where it lands on none.
pub open spec fn transition_draw(ts: Seq<Transition>, current: TrafficState, roll: int) -> TrafficState {
    let p = pick(transition_weights(ts), roll);
    if p < ts.len() {
        ts[p].to
    } else {
        current
    }
}

/// The size for a roll over the buckets' weights and a random word.
pub fn size_for_draw(buckets: &[SizeBucket], roll: u16, raw: u32) -> (r: u16)
    requires
        buckets@.len() <= 65536,
    ensures
        r == size_draw(buckets@, roll as int, raw),
{
    let ws = size_weights_of(buckets);
    if weight_total(ws.as_slice()) == 0 {
        return 100;
    }
    match weighted_index(ws.as_slice(), roll) {
        Some(i) => value_in_range(buckets[i].min, buckets[i].max, raw),
        None => buckets[buckets.len() - 1].max,
    }
}

/// The delay for a roll over the buckets' weights and a random word.
pub fn delay_for_draw(buckets: &[DelayBucket], roll: u16, raw: u64) -> (r: u64)
    requires
        buckets@.len() <= 65536,
        forall|i: int|
            0 <= i < buckets@.len() ==> !(#[trigger] buckets@[i].min_us == 0 && buckets@[i].max_us
                == u64::MAX),
    ensures
        r == delay_draw(buckets@, roll as int, raw),
{
    let ws = delay_weights_of(buckets);
    if weight_total(ws.as_slice()) == 0 {
        return 1000;
    }
    match weighted_index(ws.as_slice(), roll) {
        Some(i) => {
            assert(!(buckets@[i as int].min_us == 0 && buckets@[i as int].max_us == u64::MAX));
            delay_in_range(buckets[i].min_us, buckets[i].max_us, raw)
        },
        None => buckets[buckets.len() - 1].max_us,
    }
}

/// The state a roll over the moves' weights leads to from `current`.
pub fn transition_for_draw(transitions: &[Transition], current: TrafficState, roll: u16) -> (r: TrafficState)
    requires
        transitions@.len() <= 65536,
    ensures
        r == transition_draw(transitions@, current, roll as int),
{
    let ws = transition_weights_of(transitions);
    match weighted_index(ws.as_slice(), roll) {
        Some(i) => transitions[i].to,
        None => current,
    }
}

/// Whether a pick by a word lies within the bounds a draw between them can give.
proof fn lemma_picks_in_draw_range(min: u16, max: u16, raw: u32, dmin: u64, dmax: u64, draw: u64)
    ensures
        in_draw_range(min as int, max as int, range_pick(min, max, raw)),
        in_draw_range(dmin as int, dmax as int, delay_pick(dmin, dmax, draw)),
{
}

/// A size drawn from the buckets by weight: a roll up to the largest, then a word.
fn sample_size(entropy: &mut EntropySource, buckets: &[SizeBucket]) -> (r: u16)
    requires
        buckets@.len() <= 65536,
    ensures
        size_sampled(buckets@, r as int),
        exists|roll: u16, raw: u32|
            roll <= max_roll(size_weights(buckets@)) && r == #[trigger] size_draw(buckets@, roll as int, raw),
{
    let ws = size_weights_of(buckets);
    let total = weight_total(ws.as_slice());
    if total == 0 {
        assert(100 == size_draw(buckets@, 0, 0));
        return 100;
    }
    let span: u16 = ((total - 1) % 65536) as u16;
    let roll = entropy.random_in_range(0, span);
    let raw: u32 = match weighted_index(ws.as_slice(), roll) {
        Some(i) => entropy.range_word(buckets[i].min, buckets[i].max),
        None => 0,
    };
    let r = size_for_draw(buckets, roll, raw);
    proof {
        lemma_roll_lands(ws@, roll as int);
        let p = pick(ws@, roll as int);
        lemma_picks_in_draw_range(buckets@[p].min, buckets@[p].max, raw, 0, 0, 0);
    }
    r
}

/// A delay drawn from the buckets by weight: a roll up to the largest, then a word.
fn sample_delay(entropy: &mut EntropySource, buckets: &[DelayBucket]) -> (r: u64)
    requires
        buckets@.len() <= 65536,
        forall|i: int|
            0 <= i < buckets@.len() ==> !(#[trigger] buckets@[i].min_us == 0 && buckets@[i].max_us
                == u64::MAX),
    ensures
        delay_sampled(buckets@, r as int),
        exists|roll: u16, raw: u64|
            roll <= max_roll(delay_weights(buckets@)) && r == #[trigger] delay_draw(buckets@, roll as int, raw),
{
    let ws = delay_weights_of(buckets);
    let total = weight_total(ws.as_slice());
    if total == 0 {
        assert(1000 == delay_draw(buckets@, 0, 0));
        return 1000;
    }
    let span: u16 = ((total - 1) % 65536) as u16;
    let roll = entropy.random_in_range(0, span);
    let raw: u64 = match weighted_index(ws.as_slice(), roll) {
        Some(i) => entropy.delay_word(buckets[i].min_us, buckets[i].max_us),
        None => 0,
    };
    let r = delay_for_draw(buckets, roll, raw);
    proof {
        lemma_roll_lands(ws@, roll as int);
        let p = pick(ws@, roll as int);
        lemma_picks_in_draw_range(0, 0, 0, buckets@[p].min_us, buckets@[p].max_us, raw);
    }
    r
}

/// A packet count for a state, drawn between its bounds.
fn draw_limit(entropy: &mut EntropySource, sp: &StateProfile) -> (r: u32)
    ensures
        limit_fits(sp@, r as int),
{
    if sp.max_packets > sp.min_packets {
        let span: u16 = ((sp.max_packets - sp.min_packets) % 65536) as u16;
        sp.min_packets + entropy.random_in_range(0, span) as u32
    } else {
        sp.min_packets
    }
}

/// The payload followed by random bytes up to `target_size`; the payload alone where it is
/// as long already.
fn pad_payload(entropy: &mut EntropySource, payload: &[u8], target_size: usize) -> (r: Vec<u8>)
    ensures
        r@.len() == if target_size > payload@.len() {
            target_size as int
        } else {
            payload@.len() as int
        },
        r@.subrange(0, payload@.len() as int) == payload@,
{
    let actual_size = if target_size > payload.len() {
        target_size
    } else {
        payload.len()
    };
    let mut result: Vec<u8> = Vec::new();
    extend_bytes(&mut result, payload);
    if result.len() < actual_size {
        let pad_len = actual_size - result.len();
        let mut padding: Vec<u8> = vec![0u8; pad_len];
        entropy.fill_padding(padding.as_mut_slice());
        extend_bytes(&mut result, padding.as_slice());
    }
    assert(result@.subrange(0, payload@.len() as int) =~= payload@);
    result
}

/// Whether a drawn number sends a cover packet: one in about seven draws, those below 15.
pub open spec fn chaff_roll_sends(roll: u16) -> bool {
    roll < 15
}

impl TrafficShapingEngine {
    /// The traffic model the engine follows.
    pub closed spec fn spec_profile(&self) -> TrafficProfileView {
        self.profile@
    }

    pub closed spec fn spec_state(&self) -> TrafficState {
        self.current_state
    }

    pub closed spec fn spec_packets(&self) -> u32 {
        self.packets_in_state
    }

    pub closed spec fn spec_limit(&self) -> u32 {
        self.state_packet_limit
    }

    /// An engine that starts idle.
    pub fn new(profile: TrafficProfile) -> (r: Self)
        ensures
            r.spec_profile() == profile@,
            r.spec_state() == TrafficState::Idle,
            r.spec_packets() == 0,
            limit_fits(profile@.idle, r.spec_limit() as int),
    {
        let mut entropy = EntropySource::new();
        let limit = draw_limit(&mut entropy, profile.state_profile(TrafficState::Idle));
        TrafficShapingEngine {
            profile,
            current_state: TrafficState::Idle,
            entropy,
            packets_in_state: 0,
            state_packet_limit: limit,
        }
    }

    /// An engine for the Firefox model where the name says so, the Chrome model otherwise.
    pub fn from_profile_name(name: &str) -> (r: Self)
        ensures
            r.spec_profile() == if name@ == "firefox_h3"@ {
                firefox_h3_view()
            } else {
                chrome_h3_view()
            },
            r.spec_state() == TrafficState::Idle,
            r.spec_packets() == 0,
            limit_fits(r.spec_profile().idle, r.spec_limit() as int),
    {
        let profile = if crate::text::str_eq_chars(name, &crate::text::chars_of("firefox_h3")) {
            TrafficProfile::firefox_h3()
        } else {
            TrafficProfile::chrome_h3()
        };
        Self::new(profile)
    }

    pub fn current_state(&self) -> (r: TrafficState)
        ensures
            r == self.spec_state(),
    {
        self.current_state
    }

    /// Pads the payload to a size drawn for the current state, draws the wait before it, and
    /// moves to another state when the current one has lasted its packets.
    pub fn shape_packet(&mut self, payload: &[u8]) -> (r: ShapedPacket)
        requires
            profile_usable(old(self).spec_profile()),
            old(self).spec_packets() < u32::MAX,
        ensures
            final(self).spec_profile() == old(self).spec_profile(),
            r.payload@.subrange(0, payload@.len() as int) == payload@,
            exists|t: int|
                #[trigger] size_sampled(
                    state_view(old(self).spec_profile(), old(self).spec_state()).size_buckets,
                    t,
                ) && r.payload@.len() == if t > payload@.len() {
                    t
                } else {
                    payload@.len() as int
                },
            delay_sampled(
                state_view(old(self).spec_profile(), old(self).spec_state()).delay_buckets,
                r.delay_us as int,
            ),
            old(self).spec_packets() + 1 >= old(self).spec_limit() ==> transition_outcome(
                old(self).spec_profile(),
                old(self).spec_state(),
                old(self).spec_packets() + 1,
                old(self).spec_limit() as int,
                final(self).spec_state(),
                final(self).spec_packets() as int,
                final(self).spec_limit() as int,
            ),
            old(self).spec_packets() + 1 < old(self).spec_limit() ==> {
                &&& final(self).spec_state() == old(self).spec_state()
                &&& final(self).spec_packets() == old(self).spec_packets() + 1
                &&& final(self).spec_limit() == old(self).spec_limit()
            },
            r.state == final(self).spec_state(),
    {
        let sp = self.profile.state_profile(self.current_state);
        let target_size = sample_size(&mut self.entropy, sp.size_buckets.as_slice());
        let padded = pad_payload(&mut self.entropy, payload, target_size as usize);
        let sp = self.profile.state_profile(self.current_state);
        let delay_us = sample_delay(&mut self.entropy, sp.delay_buckets.as_slice());
        self.packets_in_state = self.packets_in_state + 1;
        if self.packets_in_state >= self.state_packet_limit {
            self.evaluate_transition();
        }
        ShapedPacket { payload: padded, delay_us, state: self.current_state }
    }

    /// While idle, now and then a packet of random cover bytes shaped like idle traffic: a
    /// number from 0 to 100 is drawn, and cover is sent when it is below 15.
    pub fn should_send_chaff(&mut self) -> (r: Option<ShapedPacket>)
        requires
            profile_usable(old(self).spec_profile()),
        ensures
            final(self).spec_profile() == old(self).spec_profile(),
            final(self).spec_state() == old(self).spec_state(),
            final(self).spec_packets() == old(self).spec_packets(),
            final(self).spec_limit() == old(self).spec_limit(),
            old(self).spec_state() != TrafficState::Idle ==> r is None,
            old(self).spec_state() == TrafficState::Idle ==> exists|roll: u16|
                roll <= 100 && (r is Some <==> #[trigger] chaff_roll_sends(roll)),
            r matches Some(p) ==> {
                &&& p.state == TrafficState::Idle
                &&& size_sampled(old(self).spec_profile().idle.size_buckets, p.payload@.len() as int)
                &&& delay_sampled(old(self).spec_profile().idle.delay_buckets, p.delay_us as int)
            },
    {
        if self.current_state != TrafficState::Idle {
            return None;
        }
        let roll = self.entropy.random_in_range(0, 100);
        self.chaff_for_roll(roll)
    }

    /// The cover packet for a drawn number: sent only while idle and only for a number below
    /// 15, with a size and a gap drawn from the idle state's buckets and random bytes.
    pub fn chaff_for_roll(&mut self, roll: u16) -> (r: Option<ShapedPacket>)
        requires
            profile_usable(old(self).spec_profile()),
        ensures
            final(self).spec_profile() == old(self).spec_profile(),
            final(self).spec_state() == old(self).spec_state(),
            final(self).spec_packets() == old(self).spec_packets(),
            final(self).spec_limit() == old(self).spec_limit(),
            r is Some <==> old(self).spec_state() == TrafficState::Idle && chaff_roll_sends(roll),
            r matches Some(p) ==> {
                &&& p.state == TrafficState::Idle
                &&& size_sampled(old(self).spec_profile().idle.size_buckets, p.payload@.len() as int)
                &&& delay_sampled(old(self).spec_profile().idle.delay_buckets, p.delay_us as int)
            },
    {
        if self.current_state != TrafficState::Idle {
            return None;
        }
        if roll < 15 {
            let sp = self.profile.state_profile(TrafficState::Idle);
            let size = sample_size(&mut self.entropy, sp.size_buckets.as_slice()) as usize;
            let mut chaff: Vec<u8> = vec![0u8; size];
            self.entropy.fill_padding(chaff.as_mut_slice());
            let sp = self.profile.state_profile(TrafficState::Idle);
            let delay = sample_delay(&mut self.entropy, sp.delay_buckets.as_slice());
            Some(ShapedPacket { payload: chaff, delay_us: delay, state: TrafficState::Idle })
        } else {
            None
        }
    }

    fn evaluate_transition(&mut self)
        requires
            profile_usable(old(self).spec_profile()),
        ensures
            final(self).spec_profile() == old(self).spec_profile(),
            transition_outcome(
                old(self).spec_profile(),
                old(self).spec_state(),
                old(self).spec_packets() as int,
                old(self).spec_limit() as int,
                final(self).spec_state(),
                final(self).spec_packets() as int,
                final(self).spec_limit() as int,
            ),
    {
        let transitions = self.profile.transitions_from(self.current_state);
        if transitions.len() == 0 {
            self.packets_in_state = 0;
            return;
        }
        proof {
            lemma_transitions_len(self.profile@, self.current_state);
        }
        let ws = transition_weights_of(transitions);
        let total = weight_total(ws.as_slice());
        if total == 0 {
            return;
        }
        let span: u16 = ((total - 1) % 65536) as u16;
        let roll = self.entropy.random_in_range(0, span);
        let next_state = transition_for_draw(transitions, self.current_state, roll);
        proof {
            lemma_roll_lands(ws@, roll as int);
        }
        self.current_state = next_state;
        self.packets_in_state = 0;
        let sp = self.profile.state_profile(next_state);
        self.state_packet_limit = draw_limit(&mut self.entropy, sp);
    }
}

proof fn lemma_transitions_for_from_len(ts: Seq<(TrafficState, Seq<Transition>)>, s: TrafficState, i: int)
    requires
        forall|j: int| 0 <= j < ts.len() ==> (#[trigger] ts[j]).1.len() <= 65536,
    ensures
        transitions_for_from(ts, s, i).len() <= 65536,
    decreases ts.len() - i,
{
    if 0 <= i < ts.len() && ts[i].0 != s {
        lemma_transitions_for_from_len(ts, s, i + 1);
    }
}

proof fn lemma_transitions_len(p: TrafficProfileView, s: TrafficState)
    requires
        profile_usable(p),
    ensures
        transitions_for(p, s).len() <= 65536,
{
    lemma_transitions_for_from_len(p.transitions, s, 0);
}

/// The built-in traffic models are ones the engine can work with.
pub proof fn lemma_builtin_profiles_usable()
    ensures
        profile_usable(chrome_h3_view()),
        profile_usable(firefox_h3_view()),
{
    let c = chrome_h3_view();
    assert(state_usable(c.idle));
    assert(state_usable(c.page_load));
    assert(state_usable(c.streaming));
    assert(state_usable(c.interactive));
    assert(state_usable(c.burst_download));
    assert(state_usable(firefox_h3_view().page_load));
}

/// Every gap the Chrome model draws, in any state, is at most thirty seconds.
pub proof fn lemma_chrome_delays_bounded(state: TrafficState, delay: int)
    requires
        delay_sampled(state_view(chrome_h3_view(), state).delay_buckets, delay),
    ensures
        delay <= 30_000_000,
{
    let b = state_view(chrome_h3_view(), state).delay_buckets;
    assert(forall|i: int| 0 <= i < b.len() ==> #[trigger] b[i].max_us <= 30_000_000 && b[i].min_us
        <= b[i].max_us);
    lemma_weight_sum_bound(delay_weights(b));
    if weight_sum(delay_weights(b)) != 0 {
        let i = choose|i: int|
            #[trigger] chosen(delay_weights(b), i) && in_draw_range(
                b[i].min_us as int,
                b[i].max_us as int,
                delay,
            );
        lemma_chosen_has_weight(delay_weights(b), i);
    }
}

} // verus!
