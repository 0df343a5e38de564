//! Assignment of every scalar unknown of the power-flow problem to a
//! position in the flat unknown vector.
//!
//! For `nb` buses and `ng` generators the vector holds the bus voltage
//! angles in `[0, nb)`, the bus voltage magnitudes in `[nb, 2nb)`, one
//! reactive-power unknown per generator in `[2nb, 2nb + ng)` and, after
//! those, one active-power unknown per generator connected to the slack
//! bus, in generator-list order.

use std::collections::HashMap;
use vstd::prelude::*;

verus! {

broadcast use vstd::std_specs::hash::group_hash_axioms;

/// PSS/E bus type code of a load (PQ) bus.
pub const LOAD_BUS: i8 = 1;

/// PSS/E bus type code of a generator (PV) bus.
pub const GEN_BUS: i8 = 2;

/// PSS/E bus type code of the slack (swing) bus.
pub const SLACK_BUS: i8 = 3;

/// PSS/E bus type code of an isolated bus.
pub const ISOLATED_BUS: i8 = 4;

/// Number of buses whose type code is the slack code.
pub open spec fn slack_count(buses: Seq<(i32, i8)>) -> nat
    decreases buses.len(),
{
    if buses.len() == 0 {
        0
    } else {
        slack_count(buses.drop_last()) + if buses.last().1 == SLACK_BUS {
            1nat
        } else {
            0nat
        }
    }
}

/// The bus numbers of a bus list.
pub open spec fn bus_numbers(buses: Seq<(i32, i8)>) -> Seq<i32> {
    buses.map_values(|b: (i32, i8)| b.0)
}

/// No bus number occurs twice.
pub open spec fn numbers_unique(ids: Seq<i32>) -> bool {
    forall|a: int, b: int| 0 <= a < b < ids.len() ==> ids[a] != ids[b]
}

/// Number of generators among the first `g` that are connected to `slack`.
pub open spec fn slack_generators_before(gen_buses: Seq<i32>, slack: i32, g: int) -> nat
    decreases g,
{
    if g <= 0 {
        0
    } else {
        slack_generators_before(gen_buses, slack, g - 1) + if gen_buses[g - 1] == slack {
            1nat
        } else {
            0nat
        }
    }
}

/// Where the starting value of a bus voltage magnitude comes from.
#[derive(Debug, Clone, Copy, PartialEq, Eq)]
pub enum MagnitudeStart {
    /// The bus's own (non-zero) voltage magnitude.
    Given,
    /// 1.0 per unit: the bus gives no magnitude.
    Flat,
    /// The (non-zero) voltage setpoint of this generator, the last one at the bus
    /// that has one.
    Setpoint(usize),
}

/// The last generator before position `n` that sits at `bus` and has a
/// voltage setpoint.
pub open spec fn last_setpoint(gen_buses: Seq<i32>, has_setpoint: Seq<bool>, bus: i32, n: int) -> Option<int>
    decreases n,
{
    if n <= 0 {
        None
    } else if gen_buses[n - 1] == bus && has_setpoint[n - 1] {
        Some(n - 1)
    } else {
        last_setpoint(gen_buses, has_setpoint, bus, n - 1)
    }
}

/// Where the starting magnitude of the bus in row `r` comes from, given
/// which buses have a magnitude and which generators a setpoint.
pub open spec fn magnitude_start(
    ids: Seq<i32>,
    gen_buses: Seq<i32>,
    has_magnitude: Seq<bool>,
    has_setpoint: Seq<bool>,
    r: int,
    n: int,
) -> MagnitudeStart {
    match last_setpoint(gen_buses, has_setpoint, ids[r], n) {
        Some(g) => MagnitudeStart::Setpoint(g as usize),
        None => if has_magnitude[r] {
            MagnitudeStart::Given
        } else {
            MagnitudeStart::Flat
        },
    }
}

/// Why no unknown vector can be laid out for a network.
#[derive(Debug, Clone, Copy, PartialEq, Eq)]
pub enum IndexError {
    /// No bus carries the slack type code.
    NoSlackBus,
    /// Two or more buses carry the slack type code.
    MultipleSlackBuses,
    /// The bus number occurs more than once.
    DuplicateBus(i32),
    /// A generator is connected to a bus number that no bus has.
    UnknownGeneratorBus(i32),
}

/// Positions of the unknowns of one power-flow solve.
pub struct UnknownIndex {
    rows: HashMap<i32, usize>,
    n_buses: usize,
    n_generators: usize,
    slack: i32,
    active: Vec<Option<usize>>,
    n_active: usize,
    ids: Ghost<Seq<i32>>,
    gen_buses: Vec<i32>,
}

impl UnknownIndex {
    /// Bus numbers, in bus-list order; the row of a bus is its position here.
    pub closed spec fn bus_ids(&self) -> Seq<i32> {
        self.ids@
    }

    /// Bus number of each generator, in generator-list order.
    pub closed spec fn generator_buses(&self) -> Seq<i32> {
        self.gen_buses@
    }

    /// Bus number of the slack bus.
    pub closed spec fn slack_bus(&self) -> i32 {
        self.slack
    }

    /// Position of the active-power unknown of generator `g`, if it has one.
    pub open spec fn active_spec(&self, g: int) -> Option<int> {
        if self.generator_buses()[g] == self.slack_bus() {
            Some(
                (2 * self.bus_ids().len() + self.generator_buses().len()
                    + slack_generators_before(self.generator_buses(), self.slack_bus(), g)) as int,
            )
        } else {
            None
        }
    }

    /// Position `p` holds the active-power unknown of some generator.
    pub open spec fn is_active_position(&self, p: int) -> bool {
        exists|g: int| 0 <= g < self.generator_buses().len() && #[trigger] self.active_spec(g) == Some(p)
    }

    /// Length of the unknown vector.
    pub open spec fn len_spec(&self) -> int {
        (2 * self.bus_ids().len() + self.generator_buses().len() + slack_generators_before(
            self.generator_buses(),
            self.slack_bus(),
            self.generator_buses().len() as int,
        )) as int
    }

    pub closed spec fn wf(&self) -> bool {
        &&& self.n_buses == self.ids@.len()
        &&& self.n_generators == self.gen_buses@.len()
        &&& numbers_unique(self.ids@)
        &&& forall|k: i32| #[trigger]
            self.rows@.contains_key(k) <==> self.ids@.contains(k)
        &&& forall|r: int| 0 <= r < self.ids@.len() ==> #[trigger] self.rows@[self.ids@[r]] == r
        &&& self.active@.len() == self.n_generators
        &&& forall|g: int|
            0 <= g < self.n_generators ==> match #[trigger] self.active@[g] {
                Some(p) => self.active_spec(g) == Some(p as int),
                None => self.active_spec(g) is None,
            }
        &&& self.n_active == slack_generators_before(
            self.gen_buses@,
            self.slack,
            self.n_generators as int,
        )
        &&& self.len_spec() <= usize::MAX
        &&& forall|g: int| 0 <= g < self.gen_buses@.len() ==> self.ids@.contains(#[trigger] self.gen_buses@[g])
    }
}


proof fn lemma_slack_count_step(buses: Seq<(i32, i8)>, i: int)
    requires
        0 <= i < buses.len(),
    ensures
        slack_count(buses.subrange(0, i + 1)) == slack_count(buses.subrange(0, i)) + if buses[i].1
            == SLACK_BUS {
            1nat
        } else {
            0nat
        },
{
    assert(buses.subrange(0, i + 1).drop_last() =~= buses.subrange(0, i));
}

proof fn lemma_before_bounded(gen_buses: Seq<i32>, slack: i32, g: int)
    requires
        0 <= g <= gen_buses.len(),
    ensures
        slack_generators_before(gen_buses, slack, g) <= g,
    decreases g,
{
    if g > 0 {
        lemma_before_bounded(gen_buses, slack, g - 1);
    }
}

proof fn lemma_before_monotone(gen_buses: Seq<i32>, slack: i32, g1: int, g2: int)
    requires
        0 <= g1 <= g2 <= gen_buses.len(),
    ensures
        slack_generators_before(gen_buses, slack, g1) <= slack_generators_before(
            gen_buses,
            slack,
            g2,
        ),
    decreases g2 - g1,
{
    if g1 < g2 {
        lemma_before_monotone(gen_buses, slack, g1, g2 - 1);
    }
}

proof fn lemma_before_covers(gen_buses: Seq<i32>, slack: i32, n: int, c: int)
    requires
        0 <= n <= gen_buses.len(),
        0 <= c < slack_generators_before(gen_buses, slack, n),
    ensures
        exists|g: int|
            0 <= g < n && gen_buses[g] == slack && #[trigger] slack_generators_before(
                gen_buses,
                slack,
                g,
            ) == c,
    decreases n,
{
    if c < slack_generators_before(gen_buses, slack, n - 1) {
        lemma_before_covers(gen_buses, slack, n - 1, c);
    } else {
        assert(gen_buses[n - 1] == slack);
        assert(slack_generators_before(gen_buses, slack, n - 1) == c);
    }
}

/// The active-power unknowns of the generators at the slack bus take
/// distinct positions, in generator order, and fill the end of the unknown
/// vector: with the angle, magnitude and reactive-power blocks every
/// position of the vector belongs to exactly one unknown.
pub proof fn lemma_active_positions(ix: &UnknownIndex)
    requires
        ix.wf(),
    ensures
        forall|g1: int, g2: int|
            0 <= g1 < g2 < ix.generator_buses().len() && ix.active_spec(g1) is Some
                && ix.active_spec(g2) is Some ==> #[trigger] ix.active_spec(g1)->0
                < #[trigger] ix.active_spec(g2)->0,
        forall|g: int|
            0 <= g < ix.generator_buses().len() && #[trigger] ix.active_spec(g) is Some ==> 2
                * ix.bus_ids().len() + ix.generator_buses().len() <= ix.active_spec(g)->0
                < ix.len_spec(),
        forall|p: int|
            2 * ix.bus_ids().len() + ix.generator_buses().len() <= p < ix.len_spec()
                ==> #[trigger] ix.is_active_position(p),
{
    let gb = ix.generator_buses();
    let slack = ix.slack_bus();
    let ng = gb.len() as int;
    assert forall|g1: int, g2: int|
        0 <= g1 < g2 < ng && ix.active_spec(g1) is Some && ix.active_spec(
            g2,
        ) is Some implies #[trigger] ix.active_spec(g1)->0 < #[trigger] ix.active_spec(g2)->0 by {
        lemma_before_monotone(gb, slack, g1 + 1, g2);
    }
    assert forall|g: int| 0 <= g < ng && #[trigger] ix.active_spec(g) is Some implies 2
        * ix.bus_ids().len() + ng <= ix.active_spec(g)->0 < ix.len_spec() by {
        lemma_before_monotone(gb, slack, g + 1, ng);
    }
    assert forall|p: int| 2 * ix.bus_ids().len() + ng <= p < ix.len_spec() implies #[trigger] ix.is_active_position(p) by {
        let c = p - 2 * ix.bus_ids().len() - ng;
        lemma_before_covers(gb, slack, ng, c);
        let g = choose|g: int|
            0 <= g < ng && gb[g] == slack && #[trigger] slack_generators_before(gb, slack, g) == c;
        assert(ix.active_spec(g) == Some(p));
    }
}

impl UnknownIndex {
    /// Lays out the unknown vector of a network from its buses, given as
    /// (bus number, type code) in bus-list order, and the bus number of each
    /// generator, in generator-list order.
    ///
    /// Exactly one bus must carry the slack type code: with none or with
    /// several the layout is refused, never guessed.
    pub fn new(buses: &Vec<(i32, i8)>, gen_buses: &Vec<i32>) -> (r: Result<UnknownIndex, IndexError>)
        requires
            2 * buses@.len() + 2 * gen_buses@.len() <= usize::MAX,
        ensures
            r matches Err(IndexError::NoSlackBus) <==> slack_count(buses@) == 0,
            r matches Err(IndexError::MultipleSlackBuses) <==> slack_count(buses@) >= 2,
            r matches Err(IndexError::DuplicateBus(_)) <==> slack_count(buses@) == 1
                && !numbers_unique(bus_numbers(buses@)),
            r matches Err(IndexError::UnknownGeneratorBus(_)) <==> slack_count(buses@) == 1
                && numbers_unique(bus_numbers(buses@)) && exists|g: int|
                0 <= g < gen_buses@.len() && !bus_numbers(buses@).contains(#[trigger] gen_buses@[g]),
            r matches Err(IndexError::DuplicateBus(d)) ==> exists|a: int, b: int|
                0 <= a < b < buses@.len() && buses@[a].0 == d && buses@[b].0 == d,
            r matches Err(IndexError::UnknownGeneratorBus(b)) ==> gen_buses@.contains(b)
                && !bus_numbers(buses@).contains(b),
            r matches Ok(ix) ==> {
                &&& ix.wf()
                &&& ix.bus_ids() == bus_numbers(buses@)
                &&& ix.generator_buses() == gen_buses@
                &&& numbers_unique(ix.bus_ids())
                &&& exists|k: int|
                    0 <= k < buses@.len() && buses@[k].0 == ix.slack_bus() && buses@[k].1
                        == SLACK_BUS
            },
    {
        let nb = buses.len();
        let ng = gen_buses.len();
        let ghost ids = bus_numbers(buses@);

        let mut count: usize = 0;
        let mut slack: i32 = 0;
        let mut i: usize = 0;
        while i < nb
            invariant
                i <= nb == buses@.len(),
                count == slack_count(buses@.subrange(0, i as int)),
                count <= i,
                count >= 1 ==> exists|k: int|
                    0 <= k < i && buses@[k].0 == slack && buses@[k].1 == SLACK_BUS,
            decreases nb - i,
        {
            proof {
                lemma_slack_count_step(buses@, i as int);
            }
            if buses[i].1 == SLACK_BUS {
                count = count + 1;
                slack = buses[i].0;
            }
            i = i + 1;
        }
        assert(buses@.subrange(0, nb as int) =~= buses@);
        if count == 0 {
            return Err(IndexError::NoSlackBus);
        }
        if count >= 2 {
            return Err(IndexError::MultipleSlackBuses);
        }

        let mut rows: HashMap<i32, usize> = HashMap::new();
        let mut i: usize = 0;
        while i < nb
            invariant
                i <= nb == buses@.len(),
                slack_count(buses@) == 1,
                ids == bus_numbers(buses@),
                numbers_unique(ids.subrange(0, i as int)),
                forall|k: i32| #[trigger] rows@.contains_key(k) <==> ids.subrange(0, i as int).contains(k),
                forall|r: int| 0 <= r < i ==> #[trigger] rows@[ids[r]] == r,
            decreases nb - i,
        {
            let id = buses[i].0;
            assert(ids[i as int] == id);
            if rows.contains_key(&id) {
                assert(ids.subrange(0, i as int).contains(id));
                let ghost a = choose|a: int| 0 <= a < i && ids.subrange(0, i as int)[a] == id;
                assert(buses@[a].0 == id);
                proof {
                    if numbers_unique(ids) {
                        assert(ids[a] == ids[i as int]);
                    }
                }
                return Err(IndexError::DuplicateBus(id));
            }
            let ghost old_rows = rows@;
            rows.insert(id, i);
            proof {
                assert(rows@ == old_rows.insert(id, i));
                assert(ids.subrange(0, i + 1) =~= ids.subrange(0, i as int).push(id));
                assert forall|k: i32| #[trigger] rows@.contains_key(k) <==> ids.subrange(0, i + 1).contains(k) by {
                    if k == id {
                        assert(ids.subrange(0, i + 1)[i as int] == k);
                    }
                    if ids.subrange(0, i as int).contains(k) {
                        let a = choose|a: int| 0 <= a < i && ids.subrange(0, i as int)[a] == k;
                        assert(ids.subrange(0, i + 1)[a] == k);
                    }
                    if ids.subrange(0, i + 1).contains(k) {
                        let a = choose|a: int| 0 <= a < i + 1 && #[trigger] ids.subrange(0, i + 1)[a] == k;
                        if a < i {
                            assert(ids.subrange(0, i as int)[a] == k);
                        }
                    }
                }
                assert forall|r: int| 0 <= r < i + 1 implies #[trigger] rows@[ids[r]] == r by {
                    if r < i {
                        assert(ids.subrange(0, i as int)[r] == ids[r]);
                        assert(ids[r] != id);
                    }
                }
            }
            i = i + 1;
        }
        assert(ids.subrange(0, nb as int) =~= ids);

        let mut active: Vec<Option<usize>> = Vec::new();
        let mut gb: Vec<i32> = Vec::new();
        let mut k: usize = 0;
        let mut g: usize = 0;
        while g < ng
            invariant
                g <= ng == gen_buses@.len(),
                nb == ids.len(),
                slack_count(buses@) == 1,
                ids == bus_numbers(buses@),
                exists|k: int| 0 <= k < buses@.len() && buses@[k].0 == slack && buses@[k].1 == SLACK_BUS,
                2 * nb + 2 * ng <= usize::MAX,
                numbers_unique(ids),
                forall|b: i32| #[trigger] rows@.contains_key(b) <==> ids.contains(b),
                forall|j: int| 0 <= j < g ==> ids.contains(#[trigger] gen_buses@[j]),
                forall|b: i32| ids.contains(b) ==> #[trigger] rows@.contains_key(b),
                k == slack_generators_before(gen_buses@, slack, g as int),
                k <= g,
                active@.len() == g,
                gb@ == gen_buses@.subrange(0, g as int),
                forall|j: int|
                    0 <= j < g ==> match #[trigger] active@[j] {
                        Some(p) => gen_buses@[j] == slack && p == 2 * nb + ng
                            + slack_generators_before(gen_buses@, slack, j),
                        None => gen_buses@[j] != slack,
                    },
            decreases ng - g,
        {
            let b = gen_buses[g];
            if !rows.contains_key(&b) {
                assert(gen_buses@.contains(b)) by {
                    assert(gen_buses@[g as int] == b);
                }
                return Err(IndexError::UnknownGeneratorBus(b));
            }
            gb.push(b);
            assert(gb@ =~= gen_buses@.subrange(0, g + 1));
            if b == slack {
                active.push(Some(2 * nb + ng + k));
                k = k + 1;
            } else {
                active.push(None);
            }
            g = g + 1;
        }
        assert(gb@ =~= gen_buses@);
        let ix = UnknownIndex {
            rows,
            n_buses: nb,
            n_generators: ng,
            slack,
            active,
            n_active: k,
            ids: Ghost(ids),
            gen_buses: gb,
        };
        Ok(ix)
    }

    /// Where the starting magnitude of each bus comes from, by row:
    /// `has_magnitude` says which buses carry a non-zero magnitude and
    /// `has_setpoint` which generators a non-zero voltage setpoint. A
    /// setpoint overrides the bus's magnitude; of several at one bus the
    /// last in generator order counts.
    pub fn magnitude_starts(&self, has_magnitude: &Vec<bool>, has_setpoint: &Vec<bool>) -> (r: Vec<
        MagnitudeStart,
    >)
        requires
            self.wf(),
            has_magnitude@.len() == self.bus_ids().len(),
            has_setpoint@.len() == self.generator_buses().len(),
        ensures
            r@.len() == self.bus_ids().len(),
            forall|k: int|
                0 <= k < r@.len() ==> #[trigger] r@[k] == magnitude_start(
                    self.bus_ids(),
                    self.generator_buses(),
                    has_magnitude@,
                    has_setpoint@,
                    k,
                    self.generator_buses().len() as int,
                ),
    {
        let ghost ids = self.ids@;
        let ghost gb = self.gen_buses@;
        let mut starts: Vec<MagnitudeStart> = Vec::new();
        let mut k: usize = 0;
        while k < self.n_buses
            invariant
                self.wf(),
                k <= self.n_buses,
                has_magnitude@.len() == self.n_buses,
                starts@.len() == k,
                forall|j: int|
                    0 <= j < k ==> #[trigger] starts@[j] == magnitude_start(
                        ids,
                        gb,
                        has_magnitude@,
                        has_setpoint@,
                        j,
                        0,
                    ),
            decreases self.n_buses - k,
        {
            if has_magnitude[k] {
                starts.push(MagnitudeStart::Given);
            } else {
                starts.push(MagnitudeStart::Flat);
            }
            k = k + 1;
        }
        let mut g: usize = 0;
        while g < self.n_generators
            invariant
                self.wf(),
                g <= self.n_generators,
                ids == self.ids@,
                gb == self.gen_buses@,
                has_setpoint@.len() == self.n_generators,
                starts@.len() == self.n_buses,
                forall|j: int|
                    0 <= j < self.n_buses ==> #[trigger] starts@[j] == magnitude_start(
                        ids,
                        gb,
                        has_magnitude@,
                        has_setpoint@,
                        j,
                        g as int,
                    ),
            decreases self.n_generators - g,
        {
            if has_setpoint[g] {
                let bus = self.gen_buses[g];
                match self.angle_index(bus) {
                    Some(row) => {
                        starts.set(row, MagnitudeStart::Setpoint(g));
                    },
                    None => {},
                }
            }
            proof {
                assert forall|j: int| 0 <= j < self.n_buses implies #[trigger] starts@[j] == magnitude_start(
                    ids,
                    gb,
                    has_magnitude@,
                    has_setpoint@,
                    j,
                    g + 1,
                ) by {
                    assert(ids.contains(gb[g as int]));
                }
            }
            g = g + 1;
        }
        starts
    }

    /// Number of buses.
    pub fn n_buses(&self) -> (r: usize)
        requires
            self.wf(),
        ensures
            r == self.bus_ids().len(),
    {
        self.n_buses
    }

    /// Number of generators.
    pub fn n_generators(&self) -> (r: usize)
        requires
            self.wf(),
        ensures
            r == self.generator_buses().len(),
    {
        self.n_generators
    }

    /// Bus number of the slack bus.
    pub fn slack(&self) -> (r: i32)
        requires
            self.wf(),
        ensures
            r == self.slack_bus(),
    {
        self.slack
    }

    /// Length of the unknown vector.
    pub fn len(&self) -> (r: usize)
        requires
            self.wf(),
        ensures
            r == self.len_spec(),
    {
        2 * self.n_buses + self.n_generators + self.n_active
    }

    /// Row of a bus, which is also the position of its voltage-angle unknown
    /// (and of its active-power balance equation).
    pub fn angle_index(&self, bus: i32) -> (r: Option<usize>)
        requires
            self.wf(),
        ensures
            match r {
                Some(k) => k < self.bus_ids().len() && self.bus_ids()[k as int] == bus,
                None => !self.bus_ids().contains(bus),
            },
    {
        match self.rows.get(&bus) {
            Some(k) => Some(*k),
            None => None,
        }
    }

    /// Position of the voltage-magnitude unknown of a bus (and of its
    /// reactive-power balance equation).
    pub fn magnitude_index(&self, bus: i32) -> (r: Option<usize>)
        requires
            self.wf(),
        ensures
            match r {
                Some(k) => self.bus_ids().len() <= k < 2 * self.bus_ids().len() && self.bus_ids()[k
                    - self.bus_ids().len()] == bus,
                None => !self.bus_ids().contains(bus),
            },
    {
        match self.angle_index(bus) {
            Some(k) => Some(self.n_buses + k),
            None => None,
        }
    }

    /// Position of the reactive-power unknown of generator `g` (and of its
    /// voltage-control equation).
    pub fn reactive_index(&self, g: usize) -> (r: usize)
        requires
            self.wf(),
            g < self.generator_buses().len(),
        ensures
            r == 2 * self.bus_ids().len() + g,
    {
        2 * self.n_buses + g
    }

    /// Position of the active-power unknown of generator `g` (and of the
    /// equation that pins the slack angle); only generators at the slack bus
    /// have one.
    pub fn active_index(&self, g: usize) -> (r: Option<usize>)
        requires
            self.wf(),
            g < self.generator_buses().len(),
        ensures
            match r {
                Some(p) => self.active_spec(g as int) == Some(p as int),
                None => self.active_spec(g as int) is None,
            },
    {
        proof {
            if self.generator_buses()[g as int] == self.slack_bus() {
                lemma_before_monotone(
                    self.generator_buses(),
                    self.slack_bus(),
                    g as int + 1,
                    self.generator_buses().len() as int,
                );
            }
        }
        self.active[g]
    }
}

} // verus!
