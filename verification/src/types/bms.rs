//! The battery state model: one sampling cycle's readings with their
//! aggregates, and the rolling history whose averages are the pack state.

use vstd::prelude::*;

verus! {

/// Cells measured per sampling cycle.
pub const NUM_CELLS: usize = 12;

/// Temperature sensors read per sampling cycle.
pub const NUM_TERMISTORS: usize = 4;

/// Sampling cycles kept in the rolling history.
pub const NUM_HISTORY: usize = 5;

/// Sum of the readings in `s`.
pub open spec fn seq_sum(s: Seq<u16>) -> int
    decreases s.len(),
{
    if s.len() == 0 {
        0
    } else {
        seq_sum(s.drop_last()) + s.last()
    }
}

/// Largest reading in `s`; 0 where there is none.
pub open spec fn seq_max(s: Seq<u16>) -> int
    decreases s.len(),
{
    if s.len() == 0 {
        0
    } else if s.last() > seq_max(s.drop_last()) {
        s.last() as int
    } else {
        seq_max(s.drop_last())
    }
}

/// Smallest reading in `s`; `u16::MAX` where there is none.
pub open spec fn seq_min(s: Seq<u16>) -> int
    decreases s.len(),
{
    if s.len() == 0 {
        u16::MAX as int
    } else if s.last() < seq_min(s.drop_last()) {
        s.last() as int
    } else {
        seq_min(s.drop_last())
    }
}

/// `n / d` rounded to the nearest integer, a half rounded up.
pub open spec fn round_div(n: int, d: int) -> int {
    (2 * n + d) / (2 * d)
}

/// The sum of `s` is at most `u16::MAX` for each reading.
pub proof fn lemma_seq_sum_bounds(s: Seq<u16>)
    ensures
        0 <= seq_sum(s) <= s.len() * 0xFFFF,
    decreases s.len(),
{
    if s.len() > 0 {
        lemma_seq_sum_bounds(s.drop_last());
    }
}

/// `seq_max(s)` is an upper bound of `s`, and one of its readings.
pub proof fn lemma_seq_max_is_max(s: Seq<u16>)
    ensures
        0 <= seq_max(s) <= 0xFFFF,
        forall|i: int| 0 <= i < s.len() ==> s[i] <= seq_max(s),
        s.len() > 0 ==> exists|i: int| 0 <= i < s.len() && s[i] == seq_max(s),
    decreases s.len(),
{
    if s.len() > 0 {
        let t = s.drop_last();
        lemma_seq_max_is_max(t);
        assert forall|i: int| 0 <= i < s.len() implies s[i] <= seq_max(s) by {
            if i < t.len() {
                assert(t[i] == s[i]);
            }
        }
        if s.last() > seq_max(t) || t.len() == 0 {
            assert(s[s.len() - 1] == seq_max(s));
        } else {
            let i: int = choose|i: int| 0 <= i < t.len() && t[i] == seq_max(t);
            assert(s[i] == seq_max(s));
        }
    }
}

/// `seq_min(s)` is a lower bound of `s`, and one of its readings.
pub proof fn lemma_seq_min_is_min(s: Seq<u16>)
    ensures
        0 <= seq_min(s) <= 0xFFFF,
        forall|i: int| 0 <= i < s.len() ==> seq_min(s) <= s[i],
        s.len() > 0 ==> exists|i: int| 0 <= i < s.len() && s[i] == seq_min(s),
    decreases s.len(),
{
    if s.len() > 0 {
        let t = s.drop_last();
        lemma_seq_min_is_min(t);
        assert forall|i: int| 0 <= i < s.len() implies seq_min(s) <= s[i] by {
            if i < t.len() {
                assert(t[i] == s[i]);
            }
        }
        if s.last() < seq_min(t) || t.len() == 0 {
            assert(s[s.len() - 1] == seq_min(s));
        } else {
            let i: int = choose|i: int| 0 <= i < t.len() && t[i] == seq_min(t);
            assert(s[i] == seq_min(s));
        }
    }
}

/// Where every reading of `s` is `v`, so are its extremes, and its sum is
/// `v` for each reading.
pub proof fn lemma_seq_uniform(s: Seq<u16>, v: u16)
    requires
        forall|i: int| 0 <= i < s.len() ==> s[i] == v,
    ensures
        seq_sum(s) == s.len() * v,
        s.len() > 0 ==> seq_max(s) == v && seq_min(s) == v,
    decreases s.len(),
{
    if s.len() > 0 {
        let t = s.drop_last();
        lemma_seq_uniform(t, v);
        assert(s.last() == v);
        if t.len() == 0 {
            assert(seq_max(t) == 0 && seq_min(t) == u16::MAX);
        }
        assert(seq_sum(s) == s.len() * v) by (nonlinear_arith)
            requires
                seq_sum(s) == t.len() * v + v,
                s.len() == t.len() + 1,
        ;
    }
}

/// The rounded mean of `d` equal values is that value.
pub proof fn lemma_round_div_multiple(x: int, d: int)
    requires
        d > 0,
    ensures
        round_div(d * x, d) == x,
{
    assert(2 * (d * x) + d == x * (2 * d) + d) by (nonlinear_arith);
    vstd::arithmetic::div_mod::lemma_fundamental_div_mod_converse(2 * (d * x) + d, 2 * d, x, d);
}

/// The quantities derived from a frame, and averaged over the history.
pub enum Aggregate {
    TotVolt,
    MaxVolt,
    MinVolt,
    AvgVolt,
    MaxTemp,
    MinTemp,
    AvgTemp,
}

/// The readings of one sampling cycle, from which every aggregate derives.
pub struct CellFrame {
    /// Cell voltages, in units of 0.1 mV.
    pub cells: Seq<u16>,
    /// Temperature readings of the same cycle.
    pub temps: Seq<u16>,
}

impl CellFrame {
    /// The frame holds one reading per cell and per sensor.
    pub open spec fn wf(self) -> bool {
        &&& self.cells.len() == NUM_CELLS
        &&& self.temps.len() == NUM_TERMISTORS
    }

    /// The frame in which every reading is zero.
    pub open spec fn zero() -> CellFrame {
        CellFrame {
            cells: Seq::new(NUM_CELLS as nat, |i: int| 0u16),
            temps: Seq::new(NUM_TERMISTORS as nat, |i: int| 0u16),
        }
    }

    /// The frame with cell `i` set to `value`.
    pub open spec fn with_cell(self, i: int, value: u16) -> CellFrame {
        CellFrame { cells: self.cells.update(i, value), temps: self.temps }
    }

    /// The frame with temperature sensor `i` set to `value`.
    pub open spec fn with_temp(self, i: int, value: u16) -> CellFrame {
        CellFrame { cells: self.cells, temps: self.temps.update(i, value) }
    }

    /// Sum of the cell voltages.
    pub open spec fn tot_volt(self) -> int {
        seq_sum(self.cells)
    }

    /// Highest cell voltage.
    pub open spec fn max_volt(self) -> int {
        seq_max(self.cells)
    }

    /// Lowest cell voltage.
    pub open spec fn min_volt(self) -> int {
        seq_min(self.cells)
    }

    /// Mean cell voltage, rounded to the nearest unit.
    pub open spec fn avg_volt(self) -> int {
        round_div(seq_sum(self.cells), NUM_CELLS as int)
    }

    /// Highest temperature reading.
    pub open spec fn max_temp(self) -> int {
        seq_max(self.temps)
    }

    /// Lowest temperature reading.
    pub open spec fn min_temp(self) -> int {
        seq_min(self.temps)
    }

    /// Mean temperature, rounded to the nearest unit.
    pub open spec fn avg_temp(self) -> int {
        round_div(seq_sum(self.temps), NUM_TERMISTORS as int)
    }

    /// The frame's own value of the aggregate `which`.
    pub open spec fn aggregate(self, which: Aggregate) -> int {
        match which {
            Aggregate::TotVolt => self.tot_volt(),
            Aggregate::MaxVolt => self.max_volt(),
            Aggregate::MinVolt => self.min_volt(),
            Aggregate::AvgVolt => self.avg_volt(),
            Aggregate::MaxTemp => self.max_temp(),
            Aggregate::MinTemp => self.min_temp(),
            Aggregate::AvgTemp => self.avg_temp(),
        }
    }
}

/// Sum over `frames` of each frame's own value of `which`.
pub open spec fn history_sum(frames: Seq<CellFrame>, which: Aggregate) -> int
    decreases frames.len(),
{
    if frames.len() == 0 {
        0
    } else {
        history_sum(frames.drop_last(), which) + frames.last().aggregate(which)
    }
}

/// Mean over `frames` of each frame's own value of `which`, rounded to the
/// nearest unit: an average of cycle summaries, not of raw readings.
pub open spec fn moving_average(frames: Seq<CellFrame>, which: Aggregate) -> int {
    round_div(history_sum(frames, which), frames.len() as int)
}

/// Over a history in which every frame has `value` as its own aggregate, the
/// sum of that aggregate is `value` once for each frame.
pub proof fn lemma_history_sum_constant(frames: Seq<CellFrame>, which: Aggregate, value: int)
    requires
        forall|k: int| 0 <= k < frames.len() ==> (#[trigger] frames[k]).aggregate(which) == value,
    ensures
        history_sum(frames, which) == frames.len() * value,
    decreases frames.len(),
{
    if frames.len() > 0 {
        let rest = frames.drop_last();
        assert forall|k: int| 0 <= k < rest.len() implies (#[trigger] rest[k]).aggregate(which)
            == value by {
            assert(rest[k] == frames[k]);
        }
        lemma_history_sum_constant(rest, which, value);
        assert(frames.last() == frames[frames.len() - 1]);
        assert(history_sum(frames, which) == frames.len() * value) by (nonlinear_arith)
            requires
                history_sum(frames, which) == rest.len() * value + value,
                frames.len() == rest.len() + 1,
        ;
    }
}

/// Over a history in which every frame has `value` as its own aggregate, the
/// moving average of that aggregate is `value`.
pub proof fn lemma_moving_average_constant(frames: Seq<CellFrame>, which: Aggregate, value: int)
    requires
        frames.len() > 0,
        forall|k: int| 0 <= k < frames.len() ==> (#[trigger] frames[k]).aggregate(which) == value,
    ensures
        moving_average(frames, which) == value,
{
    lemma_history_sum_constant(frames, which, value);
    lemma_round_div_multiple(value, frames.len() as int);
}

/// A frame whose cells all read `v` has `v` as its mean, its minimum and its
/// maximum, and twelve times `v` as its total.
pub proof fn lemma_uniform_frame(frame: CellFrame, v: u16)
    requires
        frame.wf(),
        forall|i: int| 0 <= i < NUM_CELLS ==> frame.cells[i] == v,
    ensures
        frame.tot_volt() == NUM_CELLS * v,
        frame.avg_volt() == v,
        frame.min_volt() == v,
        frame.max_volt() == v,
{
    lemma_seq_uniform(frame.cells, v);
    lemma_round_div_multiple(v as int, NUM_CELLS as int);
}

/// Over a history of equal cycles the moving average of each aggregate is
/// the cycle's own aggregate, however often the cycle is repeated.
pub proof fn lemma_equal_cycles(frames: Seq<CellFrame>, frame: CellFrame, which: Aggregate)
    requires
        frames.len() > 0,
        forall|k: int| 0 <= k < frames.len() ==> frames[k] == frame,
    ensures
        moving_average(frames, which) == frame.aggregate(which),
{
    lemma_moving_average_constant(frames, which, frame.aggregate(which));
}

/// The rolling history of frames, the cursor into it, and the pack
/// aggregates as they stood when the last cycle was closed.
pub struct RollingState {
    /// The last `NUM_HISTORY` frames, by slot.
    pub frames: Seq<CellFrame>,
    /// The slot that the cycle in progress writes to.
    pub cursor: int,
    pub tot_volt: int,
    pub max_volt: int,
    pub min_volt: int,
    pub avg_volt: int,
    pub max_temp: int,
    pub min_temp: int,
    pub avg_temp: int,
    /// The pack current last reported.
    pub current: int,
}

impl RollingState {
    /// The history is fully populated and the cursor points into it.
    pub open spec fn wf(self) -> bool {
        &&& self.frames.len() == NUM_HISTORY
        &&& forall|k: int| 0 <= k < self.frames.len() ==> (#[trigger] self.frames[k]).wf()
        &&& 0 <= self.cursor < NUM_HISTORY
    }

    /// A history of all-zero frames with all-zero aggregates.
    pub open spec fn initial() -> RollingState {
        RollingState {
            frames: Seq::new(NUM_HISTORY as nat, |k: int| CellFrame::zero()),
            cursor: 0,
            tot_volt: 0,
            max_volt: 0,
            min_volt: 0,
            avg_volt: 0,
            max_temp: 0,
            min_temp: 0,
            avg_temp: 0,
            current: 0,
        }
    }

    /// The state after cell `i` of the cycle in progress is set to `value`:
    /// the pack aggregates stay as they are.
    pub open spec fn with_cell(self, i: int, value: u16) -> RollingState {
        RollingState {
            frames: self.frames.update(self.cursor, self.frames[self.cursor].with_cell(i, value)),
            ..self
        }
    }

    /// The state after sensor `i` of the cycle in progress is set to `value`:
    /// the pack aggregates stay as they are.
    pub open spec fn with_temp(self, i: int, value: u16) -> RollingState {
        RollingState {
            frames: self.frames.update(self.cursor, self.frames[self.cursor].with_temp(i, value)),
            ..self
        }
    }

    /// The state after the cycle in progress takes `cells` as its cell
    /// voltages: the pack aggregates stay as they are.
    pub open spec fn with_cells(self, cells: Seq<u16>) -> RollingState {
        RollingState {
            frames: self.frames.update(
                self.cursor,
                CellFrame { cells, temps: self.frames[self.cursor].temps },
            ),
            ..self
        }
    }

    /// The state after the cycle in progress takes `temps` as its
    /// temperature readings: the pack aggregates stay as they are.
    pub open spec fn with_temps(self, temps: Seq<u16>) -> RollingState {
        RollingState {
            frames: self.frames.update(
                self.cursor,
                CellFrame { cells: self.frames[self.cursor].cells, temps },
            ),
            ..self
        }
    }

    /// The state after the pack current is reported as `value`.
    pub open spec fn with_current(self, value: int) -> RollingState {
        RollingState { current: value, ..self }
    }

    /// The slot after `cursor`, wrapping at the end of the history.
    pub open spec fn next_cursor(self) -> int {
        if self.cursor + 1 >= NUM_HISTORY {
            0
        } else {
            self.cursor + 1
        }
    }

    /// The slot of the cycle closed last.
    pub open spec fn last_closed(self) -> int {
        if self.cursor == 0 {
            NUM_HISTORY - 1
        } else {
            self.cursor - 1
        }
    }

    /// Cell `i` of the cycle closed last.
    pub open spec fn cell(self, i: int) -> u16 {
        self.frames[self.last_closed()].cells[i]
    }

    /// The state after the cycle in progress is closed: every pack aggregate
    /// becomes the moving average of the frames' own, and the cursor moves on.
    pub open spec fn close(self) -> RollingState {
        RollingState {
            frames: self.frames,
            cursor: self.next_cursor(),
            tot_volt: moving_average(self.frames, Aggregate::TotVolt),
            max_volt: moving_average(self.frames, Aggregate::MaxVolt),
            min_volt: moving_average(self.frames, Aggregate::MinVolt),
            avg_volt: moving_average(self.frames, Aggregate::AvgVolt),
            max_temp: moving_average(self.frames, Aggregate::MaxTemp),
            min_temp: moving_average(self.frames, Aggregate::MinTemp),
            avg_temp: moving_average(self.frames, Aggregate::AvgTemp),
            current: self.current,
        }
    }

    /// Closing a cycle over a history of equal frames leaves every pack
    /// aggregate at the frame's own, and closing again changes none of them.
    pub proof fn lemma_close_equal_cycles(self, frame: CellFrame)
        requires
            self.wf(),
            forall|k: int| 0 <= k < NUM_HISTORY ==> self.frames[k] == frame,
        ensures
            self.close().tot_volt == frame.tot_volt(),
            self.close().max_volt == frame.max_volt(),
            self.close().min_volt == frame.min_volt(),
            self.close().avg_volt == frame.avg_volt(),
            self.close().max_temp == frame.max_temp(),
            self.close().min_temp == frame.min_temp(),
            self.close().avg_temp == frame.avg_temp(),
            self.close().close() == (RollingState {
                cursor: self.close().next_cursor(),
                ..self.close()
            }),
    {
        lemma_equal_cycles(self.frames, frame, Aggregate::TotVolt);
        lemma_equal_cycles(self.frames, frame, Aggregate::MaxVolt);
        lemma_equal_cycles(self.frames, frame, Aggregate::MinVolt);
        lemma_equal_cycles(self.frames, frame, Aggregate::AvgVolt);
        lemma_equal_cycles(self.frames, frame, Aggregate::MaxTemp);
        lemma_equal_cycles(self.frames, frame, Aggregate::MinTemp);
        lemma_equal_cycles(self.frames, frame, Aggregate::AvgTemp);
    }

    /// Where every cell of every frame in the history reads `v`, closing a
    /// cycle leaves `v` as the pack mean, minimum and maximum, and twelve
    /// times `v` as the pack total.
    pub proof fn lemma_close_uniform_cells(self, v: u16)
        requires
            self.wf(),
            forall|k: int, i: int|
                0 <= k < NUM_HISTORY && 0 <= i < NUM_CELLS ==> self.frames[k].cells[i] == v,
        ensures
            self.close().avg_volt == v,
            self.close().min_volt == v,
            self.close().max_volt == v,
            self.close().tot_volt == NUM_CELLS * v,
    {
        assert forall|k: int| 0 <= k < self.frames.len() implies {
            &&& (#[trigger] self.frames[k]).aggregate(Aggregate::AvgVolt) == v
            &&& self.frames[k].aggregate(Aggregate::MinVolt) == v
            &&& self.frames[k].aggregate(Aggregate::MaxVolt) == v
            &&& self.frames[k].aggregate(Aggregate::TotVolt) == NUM_CELLS * v
        } by {
            lemma_uniform_frame(self.frames[k], v);
        }
        lemma_moving_average_constant(self.frames, Aggregate::AvgVolt, v as int);
        lemma_moving_average_constant(self.frames, Aggregate::MinVolt, v as int);
        lemma_moving_average_constant(self.frames, Aggregate::MaxVolt, v as int);
        lemma_moving_average_constant(self.frames, Aggregate::TotVolt, NUM_CELLS * v);
    }
}

/// Sum, extremes and rounded mean of a run of readings.
struct Summary {
    tot: u32,
    max: u16,
    min: u16,
    avg: u16,
}

/// Recomputes every aggregate of `values` in full.
fn summarize(values: &[u16]) -> (s: Summary)
    requires
        0 < values@.len() <= 0x10000,
    ensures
        s.tot == seq_sum(values@),
        s.max == seq_max(values@),
        s.min == seq_min(values@),
        s.avg == round_div(seq_sum(values@), values@.len() as int),
{
    let n: usize = values.len();
    let mut tot: u32 = 0;
    let mut max: u16 = 0;
    let mut min: u16 = u16::MAX;
    let mut k: usize = 0;
    while k < n
        invariant
            n == values@.len(),
            n <= 0x10000,
            k <= n,
            tot == seq_sum(values@.take(k as int)),
            tot <= k * 0xFFFF,
            max == seq_max(values@.take(k as int)),
            min == seq_min(values@.take(k as int)),
        decreases n - k,
    {
        let v: u16 = values[k];
        proof {
            assert(values@.take(k + 1).drop_last() == values@.take(k as int));
            assert(values@.take(k + 1).last() == v);
        }
        tot = tot + v as u32;
        if v > max {
            max = v;
        }
        if v < min {
            min = v;
        }
        k = k + 1;
    }
    proof {
        assert(values@.take(n as int) == values@);
    }
    let wide: u64 = 2 * (tot as u64) + n as u64;
    let den: u64 = 2 * (n as u64);
    let avg: u64 = wide / den;
    proof {
        assert(wide < den * 0x10000) by (nonlinear_arith)
            requires
                wide == 2 * tot + n,
                den == 2 * n,
                tot <= n * 0xFFFF,
                n > 0,
        ;
        vstd::arithmetic::div_mod::lemma_div_by_multiple_is_strongly_ordered(
            wide as int,
            (den * 0x10000) as int,
            0x10000,
            den as int,
        );
        vstd::arithmetic::div_mod::lemma_div_by_multiple(0x10000, den as int);
    }
    Summary { tot, max, min, avg: avg as u16 }
}

/// One sampling cycle: the readings and the aggregates derived from them.
#[derive(Debug, Copy, Clone)]
pub struct BMS {
    cell_volts: [u16; NUM_CELLS],
    tot_volt: u32,
    max_volt: u16,
    min_volt: u16,
    avg_volt: u16,
    temperatures: [u16; NUM_TERMISTORS],
    max_temp: u16,
    min_temp: u16,
    avg_temp: u16,
}

impl View for BMS {
    type V = CellFrame;

    closed spec fn view(&self) -> CellFrame {
        CellFrame { cells: self.cell_volts@, temps: self.temperatures@ }
    }
}

impl BMS {
    /// The stored aggregates are those of the stored readings.
    #[verifier::type_invariant]
    closed spec fn derived(self) -> bool {
        &&& self.tot_volt == self@.tot_volt()
        &&& self.max_volt == self@.max_volt()
        &&& self.min_volt == self@.min_volt()
        &&& self.avg_volt == self@.avg_volt()
        &&& self.max_temp == self@.max_temp()
        &&& self.min_temp == self@.min_temp()
        &&& self.avg_temp == self@.avg_temp()
    }

    /// Every frame holds one reading per cell and per sensor.
    pub proof fn lemma_view_wf(self)
        ensures
            self@.wf(),
    {
    }

    /// Builds the frame of the given readings, each aggregate computed anew.
    fn update(cell_volts: [u16; NUM_CELLS], temperatures: [u16; NUM_TERMISTORS]) -> (frame: BMS)
        ensures
            frame@ == (CellFrame { cells: cell_volts@, temps: temperatures@ }),
    {
        let volts = summarize(&cell_volts);
        let temps = summarize(&temperatures);
        BMS {
            cell_volts,
            tot_volt: volts.tot,
            max_volt: volts.max,
            min_volt: volts.min,
            avg_volt: volts.avg,
            temperatures,
            max_temp: temps.max,
            min_temp: temps.min,
            avg_temp: temps.avg,
        }
    }

    /// A frame in which every reading is zero.
    pub fn new() -> (frame: BMS)
        ensures
            frame@ == CellFrame::zero(),
    {
        let frame = BMS::update([0; NUM_CELLS], [0; NUM_TERMISTORS]);
        assert(frame@.cells =~= CellFrame::zero().cells);
        assert(frame@.temps =~= CellFrame::zero().temps);
        frame
    }

    /// Stores the reading of temperature sensor `i` and recomputes the
    /// frame's aggregates.
    pub fn update_temp(&mut self, i: usize, value: u16)
        requires
            i < NUM_TERMISTORS,
        ensures
            final(self)@ == old(self)@.with_temp(i as int, value),
    {
        let mut temperatures = self.temperatures;
        temperatures[i] = value;
        *self = BMS::update(self.cell_volts, temperatures);
    }

    /// Stores the voltage of cell `i` and recomputes the frame's aggregates.
    pub fn update_cell(&mut self, i: usize, value: u16)
        requires
            i < NUM_CELLS,
        ensures
            final(self)@ == old(self)@.with_cell(i as int, value),
    {
        let mut cell_volts = self.cell_volts;
        cell_volts[i] = value;
        *self = BMS::update(cell_volts, self.temperatures);
    }

    /// The voltage stored for cell `i`.
    pub fn cell_volts(&self, i: usize) -> (value: u16)
        requires
            i < NUM_CELLS,
        ensures
            value == self@.cells[i as int],
    {
        self.cell_volts[i]
    }

    /// The reading stored for temperature sensor `i`.
    pub fn temperatures(&self, i: usize) -> (value: u16)
        requires
            i < NUM_TERMISTORS,
        ensures
            value == self@.temps[i as int],
    {
        self.temperatures[i]
    }

    pub fn avg_volt(&self) -> (value: u16)
        ensures
            value == self@.avg_volt(),
    {
        proof {
            use_type_invariant(self);
        }
        self.avg_volt
    }

    pub fn tot_volt(&self) -> (value: u32)
        ensures
            value == self@.tot_volt(),
    {
        proof {
            use_type_invariant(self);
        }
        self.tot_volt
    }

    pub fn min_volt(&self) -> (value: u16)
        ensures
            value == self@.min_volt(),
    {
        proof {
            use_type_invariant(self);
        }
        self.min_volt
    }

    pub fn max_volt(&self) -> (value: u16)
        ensures
            value == self@.max_volt(),
    {
        proof {
            use_type_invariant(self);
        }
        self.max_volt
    }

    pub fn avg_temp(&self) -> (value: u16)
        ensures
            value == self@.avg_temp(),
    {
        proof {
            use_type_invariant(self);
        }
        self.avg_temp
    }

    pub fn min_temp(&self) -> (value: u16)
        ensures
            value == self@.min_temp(),
    {
        proof {
            use_type_invariant(self);
        }
        self.min_temp
    }

    pub fn max_temp(&self) -> (value: u16)
        ensures
            value == self@.max_temp(),
    {
        proof {
            use_type_invariant(self);
        }
        self.max_temp
    }
}

impl Default for BMS {
    fn default() -> (frame: BMS)
        ensures
            frame@ == CellFrame::zero(),
    {
        BMS::new()
    }
}

/// The pack state: a rolling history of sampling cycles and the moving
/// averages of their aggregates.
#[derive(Debug, Copy, Clone)]
pub struct SLAVEBMS {
    bms_history: [BMS; NUM_HISTORY],
    index: usize,
    tot_volt: u32,
    max_volt: u16,
    min_volt: u16,
    avg_volt: u16,
    max_temp: u16,
    min_temp: u16,
    avg_temp: u16,
    current: i32,
}

impl View for SLAVEBMS {
    type V = RollingState;

    closed spec fn view(&self) -> RollingState {
        RollingState {
            frames: Seq::new(NUM_HISTORY as nat, |k: int| self.bms_history@[k]@),
            cursor: if self.index < NUM_HISTORY {
                self.index as int
            } else {
                0
            },
            tot_volt: self.tot_volt as int,
            max_volt: self.max_volt as int,
            min_volt: self.min_volt as int,
            avg_volt: self.avg_volt as int,
            max_temp: self.max_temp as int,
            min_temp: self.min_temp as int,
            avg_temp: self.avg_temp as int,
            current: self.current as int,
        }
    }
}

/// Each frame's own aggregates fit the fields that hold them.
proof fn lemma_aggregate_bounds(frame: CellFrame)
    requires
        frame.wf(),
    ensures
        0 <= frame.tot_volt() <= 786420,
        0 <= frame.max_volt() <= 0xFFFF,
        0 <= frame.min_volt() <= 0xFFFF,
        0 <= frame.max_temp() <= 0xFFFF,
        0 <= frame.min_temp() <= 0xFFFF,
{
    lemma_seq_sum_bounds(frame.cells);
    lemma_seq_sum_bounds(frame.temps);
    lemma_seq_max_is_max(frame.cells);
    lemma_seq_max_is_max(frame.temps);
    lemma_seq_min_is_min(frame.cells);
    lemma_seq_min_is_min(frame.temps);
}

impl SLAVEBMS {
    /// The cursor points into the history, and the total fits sixteen bits
    /// once divided by a hundred.
    #[verifier::type_invariant]
    closed spec fn inv(self) -> bool {
        &&& self.index < NUM_HISTORY
        &&& self.tot_volt <= 786420
    }

    /// The history of every pack state is fully populated, each frame with
    /// one reading per cell and per sensor, and the cursor points into it.
    pub proof fn lemma_view_wf(self)
        ensures
            self@.wf(),
    {
        assert forall|k: int| 0 <= k < NUM_HISTORY implies (#[trigger] self@.frames[k]).wf() by {
            self.bms_history@[k].lemma_view_wf();
        }
    }

    /// A pack state whose history holds all-zero frames.
    pub fn new() -> (pack: SLAVEBMS)
        ensures
            pack@ == RollingState::initial(),
    {
        let pack = SLAVEBMS {
            bms_history: [BMS::new(); NUM_HISTORY],
            index: 0,
            tot_volt: 0,
            max_volt: 0,
            min_volt: 0,
            avg_volt: 0,
            max_temp: 0,
            min_temp: 0,
            avg_temp: 0,
            current: 0,
        };
        assert(pack@.frames =~= RollingState::initial().frames);
        pack
    }

    /// Closes the cycle in progress: recomputes every pack aggregate as the
    /// rounded mean of the frames' own, and moves the cursor to the next slot.
    pub fn update(&mut self)
        ensures
            final(self)@ == old(self)@.close(),
            final(self)@.wf(),
    {
        proof {
            use_type_invariant(&*self);
        }
        let history = self.bms_history;
        let ghost frames = self@.frames;
        let mut tot_volt: u64 = 0;
        let mut max_volt: u64 = 0;
        let mut min_volt: u64 = 0;
        let mut avg_volt: u64 = 0;
        let mut max_temp: u64 = 0;
        let mut min_temp: u64 = 0;
        let mut avg_temp: u64 = 0;
        let mut k: usize = 0;
        while k < NUM_HISTORY
            invariant
                k <= NUM_HISTORY,
                frames.len() == NUM_HISTORY,
                forall|j: int| 0 <= j < NUM_HISTORY ==> frames[j] == #[trigger] history@[j]@,
                tot_volt == history_sum(frames.take(k as int), Aggregate::TotVolt),
                max_volt == history_sum(frames.take(k as int), Aggregate::MaxVolt),
                min_volt == history_sum(frames.take(k as int), Aggregate::MinVolt),
                avg_volt == history_sum(frames.take(k as int), Aggregate::AvgVolt),
                max_temp == history_sum(frames.take(k as int), Aggregate::MaxTemp),
                min_temp == history_sum(frames.take(k as int), Aggregate::MinTemp),
                avg_temp == history_sum(frames.take(k as int), Aggregate::AvgTemp),
                tot_volt <= k * 786420,
                max_volt <= k * 0xFFFF,
                min_volt <= k * 0xFFFF,
                avg_volt <= k * 0xFFFF,
                max_temp <= k * 0xFFFF,
                min_temp <= k * 0xFFFF,
                avg_temp <= k * 0xFFFF,
            decreases NUM_HISTORY - k,
        {
            let frame = history[k];
            proof {
                assert(frames.take(k + 1).drop_last() == frames.take(k as int));
                assert(frames.take(k + 1).last() == frame@);
                frame.lemma_view_wf();
                lemma_aggregate_bounds(frame@);
            }
            tot_volt = tot_volt + frame.tot_volt() as u64;
            max_volt = max_volt + frame.max_volt() as u64;
            min_volt = min_volt + frame.min_volt() as u64;
            avg_volt = avg_volt + frame.avg_volt() as u64;
            max_temp = max_temp + frame.max_temp() as u64;
            min_temp = min_temp + frame.min_temp() as u64;
            avg_temp = avg_temp + frame.avg_temp() as u64;
            k = k + 1;
        }
        proof {
            assert(frames.take(NUM_HISTORY as int) == frames);
        }
        let index: usize = if self.index + 1 >= NUM_HISTORY {
            0
        } else {
            self.index + 1
        };
        *self = SLAVEBMS {
            bms_history: history,
            index,
            tot_volt: round_mean(tot_volt) as u32,
            max_volt: round_mean(max_volt) as u16,
            min_volt: round_mean(min_volt) as u16,
            avg_volt: round_mean(avg_volt) as u16,
            max_temp: round_mean(max_temp) as u16,
            min_temp: round_mean(min_temp) as u16,
            avg_temp: round_mean(avg_temp) as u16,
            current: self.current,
        };
        proof {
            assert(self@.frames =~= frames);
            self.lemma_view_wf();
        }
    }

    /// Stores the reading of temperature sensor `i` in the cycle in progress.
    pub fn update_temp(&mut self, i: usize, value: u16)
        requires
            i < NUM_TERMISTORS,
        ensures
            final(self)@ == old(self)@.with_temp(i as int, value),
            final(self)@.wf(),
    {
        proof {
            use_type_invariant(&*self);
        }
        let slot: usize = self.index;
        let mut frame = self.bms_history[slot];
        frame.update_temp(i, value);
        self.bms_history[slot] = frame;
        proof {
            assert(self@.frames =~= old(self)@.with_temp(i as int, value).frames);
            self.lemma_view_wf();
        }
    }

    /// Stores the voltage of cell `i` in the cycle in progress.
    pub fn update_cell(&mut self, i: usize, value: u16)
        requires
            i < NUM_CELLS,
        ensures
            final(self)@ == old(self)@.with_cell(i as int, value),
            final(self)@.wf(),
    {
        proof {
            use_type_invariant(&*self);
        }
        let slot: usize = self.index;
        let mut frame = self.bms_history[slot];
        frame.update_cell(i, value);
        self.bms_history[slot] = frame;
        proof {
            assert(self@.frames =~= old(self)@.with_cell(i as int, value).frames);
            self.lemma_view_wf();
        }
    }

    /// Stores the pack current last measured.
    pub fn update_current(&mut self, value: i32)
        ensures
            final(self)@ == old(self)@.with_current(value as int),
    {
        proof {
            use_type_invariant(&*self);
        }
        self.current = value;
    }

    pub fn avg_volt(&self) -> (value: u16)
        ensures
            value == self@.avg_volt,
    {
        self.avg_volt
    }

    /// The pack total, at most twelve full-scale readings.
    pub fn tot_volt(&self) -> (value: u32)
        ensures
            value == self@.tot_volt,
            value <= 786420,
    {
        proof {
            use_type_invariant(self);
        }
        self.tot_volt
    }

    pub fn min_volt(&self) -> (value: u16)
        ensures
            value == self@.min_volt,
    {
        self.min_volt
    }

    pub fn max_volt(&self) -> (value: u16)
        ensures
            value == self@.max_volt,
    {
        self.max_volt
    }

    pub fn avg_temp(&self) -> (value: u16)
        ensures
            value == self@.avg_temp,
    {
        self.avg_temp
    }

    pub fn min_temp(&self) -> (value: u16)
        ensures
            value == self@.min_temp,
    {
        self.min_temp
    }

    pub fn max_temp(&self) -> (value: u16)
        ensures
            value == self@.max_temp,
    {
        self.max_temp
    }

    pub fn current(&self) -> (value: i32)
        ensures
            value == self@.current,
    {
        self.current
    }

    /// The voltage of cell `i` in the cycle closed last, never a reading of
    /// the cycle in progress.
    pub fn cell_volts(&self, i: usize) -> (value: u16)
        requires
            i < NUM_CELLS,
        ensures
            value == self@.cell(i as int),
    {
        proof {
            use_type_invariant(self);
        }
        let slot: usize = if self.index == 0 {
            NUM_HISTORY - 1
        } else {
            self.index - 1
        };
        self.bms_history[slot].cell_volts(i)
    }
}

impl Default for SLAVEBMS {
    fn default() -> (pack: SLAVEBMS)
        ensures
            pack@ == RollingState::initial(),
    {
        SLAVEBMS::new()
    }
}

/// The pack state that the board starts from.
pub fn setup_bms() -> (pack: SLAVEBMS)
    ensures
        pack@ == RollingState::initial(),
{
    SLAVEBMS::new()
}

/// Mean of a sum over the history, rounded to the nearest unit.
fn round_mean(sum: u64) -> (mean: u64)
    requires
        sum <= 5 * 786420,
    ensures
        mean == round_div(sum as int, NUM_HISTORY as int),
        5 * mean <= sum + 2,
{
    let frames: u64 = NUM_HISTORY as u64;
    let mean: u64 = (2 * sum + frames) / (2 * frames);
    assert(mean == (2 * sum + 5) / 10);
    mean
}

} // verus!
