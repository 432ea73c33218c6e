//! Experiment configuration: one named config is registered by the script
//! and referenced by handle when hosting subjects and stepping faults.
use vstd::prelude::*;

use crate::text::{ascii_lower_seq, eq_ignore_ascii_case, err_view, join2};

verus! {

/// Whether a fault step first clears the faults of its subject.
#[derive(Clone, Copy, Debug, PartialEq, Eq, Structural)]
pub enum AccumulationMode {
    /// Each step clears the subject's earlier faults before applying.
    Single,
    /// Faults pile up on a subject.
    Accumulate,
}

impl Default for AccumulationMode {
    fn default() -> (m: AccumulationMode)
        ensures
            m == AccumulationMode::Single,
    {
        AccumulationMode::Single
    }
}

impl AccumulationMode {
    pub open spec fn spec_name(self) -> Seq<char> {
        match self {
            AccumulationMode::Single => "single"@,
            AccumulationMode::Accumulate => "accumulate"@,
        }
    }

    /// Parsing a mode: `single` or `accumulate`, ASCII case-insensitively.
    pub open spec fn spec_parse(s: Seq<char>) -> Result<AccumulationMode, Seq<char>> {
        if ascii_lower_seq(s) == ascii_lower_seq("single"@) {
            Ok(AccumulationMode::Single)
        } else if ascii_lower_seq(s) == ascii_lower_seq("accumulate"@) {
            Ok(AccumulationMode::Accumulate)
        } else {
            Err("invalid accumulation mode: "@ + s)
        }
    }

    /// Display name of the mode: `single` or `accumulate`.
    pub fn to_string(&self) -> (s: String)
        ensures
            s@ == self.spec_name(),
    {
        match self {
            AccumulationMode::Single => String::from_str("single"),
            AccumulationMode::Accumulate => String::from_str("accumulate"),
        }
    }

    /// Parse a mode name (see [`AccumulationMode::spec_parse`]).
    pub fn from_str(s: &str) -> (r: Result<AccumulationMode, String>)
        ensures
            err_view(r) == Self::spec_parse(s@),
    {
        if eq_ignore_ascii_case(s, "single") {
            Ok(AccumulationMode::Single)
        } else if eq_ignore_ascii_case(s, "accumulate") {
            Ok(AccumulationMode::Accumulate)
        } else {
            Err(join2("invalid accumulation mode: ", s))
        }
    }
}

/// Reading back the name of either mode gives the same mode.
pub proof fn accumulation_mode_round_trip(m: AccumulationMode)
    ensures
        AccumulationMode::spec_parse(m.spec_name()) == Ok::<AccumulationMode, Seq<char>>(m),
{
    reveal_strlit("single");
    reveal_strlit("accumulate");
    assert(ascii_lower_seq("single"@) =~= "single"@);
    assert(ascii_lower_seq("accumulate"@) =~= "accumulate"@);
}

/// One fault weight of a config. The weight is a 32-bit floating-point
/// number, held here by its IEEE-754 bit pattern: the library carries it
/// unchanged, and the arithmetic on weights is done by the application.
pub struct WeightEntry {
    pub name: String,
    pub weight_bits: u32,
}

/// One named experiment configuration.
pub struct Config {
    pub substrate: Option<String>,
    pub seed: Option<u64>,
    /// Fault weights, ordered by fault name so that weighted selection is
    /// deterministic for a given seed.
    pub fault_weights: Vec<WeightEntry>,
    pub accumulation_mode: AccumulationMode,
    pub http_timeout_secs: u64,
    pub http_retries: u32,
    pub http_retry_delay_ms: u64,
    pub step_delay_ms: u64,
    /// Total number of fault steps the fault tree will produce.
    pub steps: usize,
    pub require_seed: bool,
}

impl Clone for WeightEntry {
    fn clone(&self) -> (w: WeightEntry)
        ensures
            w == *self,
    {
        WeightEntry { name: self.name.clone(), weight_bits: self.weight_bits }
    }
}

impl Clone for Config {
    fn clone(&self) -> (c: Config)
        ensures
            c.substrate == self.substrate,
            c.seed == self.seed,
            c.fault_weights@ == self.fault_weights@,
            c.accumulation_mode == self.accumulation_mode,
            c.http_timeout_secs == self.http_timeout_secs,
            c.http_retries == self.http_retries,
            c.http_retry_delay_ms == self.http_retry_delay_ms,
            c.step_delay_ms == self.step_delay_ms,
            c.steps == self.steps,
            c.require_seed == self.require_seed,
    {
        let mut weights: Vec<WeightEntry> = Vec::new();
        let mut i: usize = 0;
        while i < self.fault_weights.len()
            invariant
                i <= self.fault_weights@.len(),
                weights@ == self.fault_weights@.subrange(0, i as int),
            decreases self.fault_weights.len() - i,
        {
            weights.push(self.fault_weights[i].clone());
            i += 1;
            assert(weights@ =~= self.fault_weights@.subrange(0, i as int));
        }
        assert(weights@ =~= self.fault_weights@);
        Config {
            substrate: crate::event::clone_opt_string(&self.substrate),
            seed: self.seed,
            fault_weights: weights,
            accumulation_mode: self.accumulation_mode,
            http_timeout_secs: self.http_timeout_secs,
            http_retries: self.http_retries,
            http_retry_delay_ms: self.http_retry_delay_ms,
            step_delay_ms: self.step_delay_ms,
            steps: self.steps,
            require_seed: self.require_seed,
        }
    }
}

fn weight(name: &str, weight_bits: u32) -> (w: WeightEntry)
    ensures
        w.name@ == name@,
        w.weight_bits == weight_bits,
{
    WeightEntry { name: String::from_str(name), weight_bits }
}

impl Config {
    /// The default fault weights, by name: `deprive:cpu` 0.10,
    /// `deprive:disk` 0.10, `deprive:memory` 0.10, `deprive:network` 0.10,
    /// `kill` 0.25, `pause` 0.35 (as 32-bit float bit patterns).
    pub open spec fn default_weights() -> Seq<(Seq<char>, u32)> {
        seq![
            ("deprive:cpu"@, 1036831949u32),
            ("deprive:disk"@, 1036831949u32),
            ("deprive:memory"@, 1036831949u32),
            ("deprive:network"@, 1036831949u32),
            ("kill"@, 1048576000u32),
            ("pause"@, 1051931443u32),
        ]
    }

    /// The weights of a config as name and bit-pattern pairs.
    pub open spec fn spec_weights(&self) -> Seq<(Seq<char>, u32)> {
        self.fault_weights@.map_values(|w: WeightEntry| (w.name@, w.weight_bits))
    }
}

impl Default for Config {
    fn default() -> (c: Config)
        ensures
            c.substrate is None,
            c.seed is None,
            c.spec_weights() == Config::default_weights(),
            c.accumulation_mode == AccumulationMode::Single,
            c.http_timeout_secs == 5,
            c.http_retries == 30,
            c.http_retry_delay_ms == 500,
            c.step_delay_ms == 1000,
            c.steps == 10,
            c.require_seed,
            c.weights_sorted(),
    {
        let mut fault_weights: Vec<WeightEntry> = Vec::new();
        fault_weights.push(weight("deprive:cpu", 1036831949u32));
        fault_weights.push(weight("deprive:disk", 1036831949u32));
        fault_weights.push(weight("deprive:memory", 1036831949u32));
        fault_weights.push(weight("deprive:network", 1036831949u32));
        fault_weights.push(weight("kill", 1048576000u32));
        fault_weights.push(weight("pause", 1051931443u32));
        let c = Config {
            substrate: None,
            seed: None,
            fault_weights,
            accumulation_mode: AccumulationMode::Single,
            http_timeout_secs: 5,
            http_retries: 30,
            http_retry_delay_ms: 500,
            step_delay_ms: 1000,
            steps: 10,
            require_seed: true,
        };
        assert(c.spec_weights() =~= Config::default_weights());
        proof {
            default_weights_sorted();
        }
        c
    }
}

/// Strict lexicographic order of names by character code (the order of
/// their UTF-8 bytes, as `String` orders them).
pub open spec fn name_lt(a: Seq<char>, b: Seq<char>) -> bool
    decreases a.len(),
{
    if a.len() == 0 {
        b.len() > 0
    } else if b.len() == 0 {
        false
    } else if (a[0] as u32) < (b[0] as u32) {
        true
    } else if a[0] == b[0] {
        name_lt(a.drop_first(), b.drop_first())
    } else {
        false
    }
}

/// Names in strictly increasing order (so none occurs twice).
pub open spec fn names_sorted(w: Seq<(Seq<char>, u32)>) -> bool {
    forall|i: int, j: int| 0 <= i < j < w.len() ==> name_lt(#[trigger] w[i].0, #[trigger] w[j].0)
}

/// The weight of each name.
pub open spec fn weight_map(w: Seq<(Seq<char>, u32)>) -> Map<Seq<char>, u32> {
    Map::new(
        |k: Seq<char>| exists|i: int| 0 <= i < w.len() && w[i].0 == k,
        |k: Seq<char>| w[choose|i: int| 0 <= i < w.len() && w[i].0 == k].1,
    )
}

proof fn lemma_name_lt_irreflexive(a: Seq<char>)
    ensures
        !name_lt(a, a),
    decreases a.len(),
{
    if a.len() > 0 {
        lemma_name_lt_irreflexive(a.drop_first());
    }
}

proof fn lemma_name_lt_total(a: Seq<char>, b: Seq<char>)
    ensures
        a == b || name_lt(a, b) || name_lt(b, a),
    decreases a.len(),
{
    if a.len() > 0 && b.len() > 0 && a[0] == b[0] {
        lemma_name_lt_total(a.drop_first(), b.drop_first());
        if a.drop_first() == b.drop_first() {
            assert(a =~= seq![a[0]] + a.drop_first());
            assert(b =~= seq![b[0]] + b.drop_first());
        }
    } else if a.len() == 0 && b.len() == 0 {
        assert(a =~= b);
    } else if a.len() > 0 && b.len() > 0 {
        vstd::utf8::char_u32_cast(a[0], a[0] as u32);
        vstd::utf8::char_u32_cast(b[0], b[0] as u32);
    }
}

proof fn lemma_name_lt_transitive(a: Seq<char>, b: Seq<char>, c: Seq<char>)
    requires
        name_lt(a, b),
        name_lt(b, c),
    ensures
        name_lt(a, c),
    decreases a.len(),
{
    if a.len() > 0 && b.len() > 0 && c.len() > 0 && a[0] == b[0] && b[0] == c[0] {
        lemma_name_lt_transitive(a.drop_first(), b.drop_first(), c.drop_first());
    }
}

/// Whether `a` comes before `b` (see [`name_lt`]).
pub fn name_less(a: &str, b: &str) -> (r: bool)
    ensures
        r == name_lt(a@, b@),
{
    let n = a.unicode_len();
    let m = b.unicode_len();
    let mut i: usize = 0;
    assert(a@.subrange(0, n as int) =~= a@);
    assert(b@.subrange(0, m as int) =~= b@);
    while i < n && i < m && a.get_char(i) == b.get_char(i)
        invariant
            i <= n,
            i <= m,
            n == a@.len(),
            m == b@.len(),
            name_lt(a@, b@) == name_lt(a@.subrange(i as int, n as int), b@.subrange(i as int, m as int)),
        decreases n - i,
    {
        let ghost x = a@.subrange(i as int, n as int);
        let ghost y = b@.subrange(i as int, m as int);
        assert(x.drop_first() =~= a@.subrange(i + 1, n as int));
        assert(y.drop_first() =~= b@.subrange(i + 1, m as int));
        i += 1;
    }
    if i == n {
        i < m
    } else if i == m {
        false
    } else {
        (a.get_char(i) as u32) < (b.get_char(i) as u32)
    }
}

impl Config {
    /// The fault weights are sorted by name.
    pub open spec fn weights_sorted(&self) -> bool {
        names_sorted(self.spec_weights())
    }

    /// Whether the fault weights are sorted by name (see
    /// [`Config::weights_sorted`]).
    pub fn weights_are_sorted(&self) -> (b: bool)
        ensures
            b == self.weights_sorted(),
    {
        let ghost w = self.spec_weights();
        let n = self.fault_weights.len();
        if n == 0 {
            return true;
        }
        let mut i: usize = 0;
        while i + 1 < n
            invariant
                n == w.len(),
                n > 0,
                i < n,
                w == self.spec_weights(),
                forall|a: int, b: int| 0 <= a < b <= i ==> name_lt(#[trigger] w[a].0, #[trigger] w[b].0),
            decreases n - i,
        {
            if !name_less(self.fault_weights[i].name.as_str(), self.fault_weights[i + 1].name.as_str()) {
                assert(!name_lt(w[i as int].0, w[i + 1].0));
                return false;
            }
            proof {
                assert forall|a: int, b: int| 0 <= a < b <= i + 1 implies name_lt(#[trigger] w[a].0, #[trigger] w[b].0) by {
                    if b == i + 1 && a < i {
                        lemma_name_lt_transitive(w[a].0, w[i as int].0, w[b].0);
                    }
                }
            }
            i += 1;
        }
        assert forall|a: int, b: int| 0 <= a < b < w.len() implies name_lt(#[trigger] w[a].0, #[trigger] w[b].0) by {
            assert(b <= i);
        }
        true
    }

    /// Set the weight of a fault name, replacing an earlier weight of the
    /// same name; the weights stay sorted by name.
    pub fn set_weight(&mut self, name: String, weight_bits: u32)
        requires
            old(self).weights_sorted(),
        ensures
            final(self).weights_sorted(),
            weight_map(final(self).spec_weights()) == weight_map(old(self).spec_weights()).insert(name@, weight_bits),
            final(self).substrate == old(self).substrate,
            final(self).seed == old(self).seed,
            final(self).accumulation_mode == old(self).accumulation_mode,
            final(self).http_timeout_secs == old(self).http_timeout_secs,
            final(self).http_retries == old(self).http_retries,
            final(self).http_retry_delay_ms == old(self).http_retry_delay_ms,
            final(self).step_delay_ms == old(self).step_delay_ms,
            final(self).steps == old(self).steps,
            final(self).require_seed == old(self).require_seed,
    {
        let ghost w = self.spec_weights();
        let ghost k = name@;
        let mut i: usize = 0;
        while i < self.fault_weights.len() && name_less(self.fault_weights[i].name.as_str(), name.as_str())
            invariant
                i <= self.fault_weights@.len(),
                w == self.spec_weights(),
                k == name@,
                forall|j: int| 0 <= j < i ==> name_lt(#[trigger] w[j].0, k),
            decreases self.fault_weights.len() - i,
        {
            i += 1;
        }
        proof {
            assert(w.len() == self.fault_weights@.len());
        }
        if i < self.fault_weights.len() && crate::text::str_eq(self.fault_weights[i].name.as_str(), name.as_str()) {
            self.fault_weights.set(i, WeightEntry { name, weight_bits });
            proof {
                let w2 = self.spec_weights();
                assert(w2 =~= w.update(i as int, (k, weight_bits)));
                assert forall|a: int, b: int| 0 <= a < b < w2.len() implies name_lt(#[trigger] w2[a].0, #[trigger] w2[b].0) by {
                    assert(w[a].0 == w2[a].0 && w[b].0 == w2[b].0);
                }
                assert forall|key: Seq<char>| #![auto] weight_map(w2).contains_key(key) <==> weight_map(w).insert(k, weight_bits).contains_key(key) by {
                    if key != k && weight_map(w).contains_key(key) {
                        let j = choose|j: int| 0 <= j < w.len() && w[j].0 == key;
                        assert(w2[j].0 == key);
                    }
                    if key != k && weight_map(w2).contains_key(key) {
                        let j = choose|j: int| 0 <= j < w2.len() && w2[j].0 == key;
                        assert(w[j].0 == key);
                    }
                    if key == k {
                        assert(w2[i as int].0 == key);
                    }
                }
                assert forall|key: Seq<char>| #![auto] weight_map(w2).contains_key(key) implies weight_map(w2)[key] == weight_map(w).insert(k, weight_bits)[key] by {
                    let j = choose|j: int| 0 <= j < w2.len() && w2[j].0 == key;
                    if key == k {
                        lemma_unique_index(w2, j, i as int);
                    } else {
                        let j1 = choose|j1: int| 0 <= j1 < w.len() && w[j1].0 == key;
                        lemma_unique_index(w, j1, j);
                    }
                }
                assert(weight_map(w2) =~= weight_map(w).insert(k, weight_bits));
            }
        } else {
            self.fault_weights.insert(i, WeightEntry { name, weight_bits });
            proof {
                let w2 = self.spec_weights();
                assert(w2 =~= w.insert(i as int, (k, weight_bits)));
                if i < w.len() {
                    lemma_name_lt_total(w[i as int].0, k);
                    assert(name_lt(k, w[i as int].0));
                }
                assert forall|a: int, b: int| 0 <= a < b < w2.len() implies name_lt(#[trigger] w2[a].0, #[trigger] w2[b].0) by {
                    if a < i && b < i {
                        assert(w2[a] == w[a] && w2[b] == w[b]);
                    } else if a < i && b == i {
                    } else if a < i && b > i {
                        assert(w2[b] == w[b - 1]);
                        if b - 1 > a {
                        }
                    } else if a == i {
                        assert(w2[b] == w[b - 1]);
                        if b - 1 > i as int {
                            lemma_name_lt_transitive(k, w[i as int].0, w[b - 1].0);
                        }
                    } else {
                        assert(w2[a] == w[a - 1] && w2[b] == w[b - 1]);
                    }
                }
                assert forall|key: Seq<char>| #![auto] weight_map(w2).contains_key(key) <==> weight_map(w).insert(k, weight_bits).contains_key(key) by {
                    if key != k && weight_map(w).contains_key(key) {
                        let j = choose|j: int| 0 <= j < w.len() && w[j].0 == key;
                        if j < i {
                            assert(w2[j].0 == key);
                        } else {
                            assert(w2[j + 1].0 == key);
                        }
                    }
                    if key != k && weight_map(w2).contains_key(key) {
                        let j = choose|j: int| 0 <= j < w2.len() && w2[j].0 == key;
                        if j < i {
                            assert(w[j].0 == key);
                        } else if j > i {
                            assert(w[j - 1].0 == key);
                        }
                    }
                    if key == k {
                        assert(w2[i as int].0 == key);
                    }
                }
                assert forall|key: Seq<char>| #![auto] weight_map(w2).contains_key(key) implies weight_map(w2)[key] == weight_map(w).insert(k, weight_bits)[key] by {
                    let j = choose|j: int| 0 <= j < w2.len() && w2[j].0 == key;
                    if key == k {
                        lemma_unique_index(w2, j, i as int);
                    } else {
                        let j1 = choose|j1: int| 0 <= j1 < w.len() && w[j1].0 == key;
                        let jj = if j1 < i { j1 } else { j1 + 1 };
                        assert(w2[jj] == w[j1]);
                        lemma_unique_index(w2, j, jj);
                    }
                }
                assert(weight_map(w2) =~= weight_map(w).insert(k, weight_bits));
            }
        }
    }
}

/// Names that agree on their first `k` characters and then differ with a
/// smaller character in `a` are ordered.
proof fn lemma_common_prefix(a: Seq<char>, b: Seq<char>, k: int)
    requires
        0 <= k < a.len(),
        k < b.len(),
        forall|i: int| 0 <= i < k ==> a[i] == b[i],
        (a[k] as u32) < (b[k] as u32),
    ensures
        name_lt(a, b),
    decreases k,
{
    if k > 0 {
        lemma_common_prefix(a.drop_first(), b.drop_first(), k - 1);
    }
}

/// In a sorted list two entries with the same name are the same entry.
proof fn lemma_unique_index(w: Seq<(Seq<char>, u32)>, a: int, b: int)
    requires
        names_sorted(w),
        0 <= a < w.len(),
        0 <= b < w.len(),
        w[a].0 == w[b].0,
    ensures
        a == b,
{
    lemma_name_lt_irreflexive(w[a].0);
    if a < b {
        assert(name_lt(w[a].0, w[b].0));
    } else if b < a {
        assert(name_lt(w[b].0, w[a].0));
    }
}

/// The default weights are sorted by name.
pub proof fn default_weights_sorted()
    ensures
        names_sorted(Config::default_weights()),
{
    reveal_strlit("deprive:cpu");
    reveal_strlit("deprive:disk");
    reveal_strlit("deprive:memory");
    reveal_strlit("deprive:network");
    reveal_strlit("kill");
    reveal_strlit("pause");
    let w = Config::default_weights();
    assert forall|i: int, j: int| 0 <= i < j < w.len() implies name_lt(#[trigger] w[i].0, #[trigger] w[j].0) by {
        lemma_default_order(i, j);
    }
}

proof fn lemma_default_order(i: int, j: int)
    requires
        0 <= i < j < 6,
    ensures
        name_lt(Config::default_weights()[i].0, Config::default_weights()[j].0),
    decreases j - i,
{
    reveal_strlit("deprive:cpu");
    reveal_strlit("deprive:disk");
    reveal_strlit("deprive:memory");
    reveal_strlit("deprive:network");
    reveal_strlit("kill");
    reveal_strlit("pause");
    let w = Config::default_weights();
    assert(name_lt(w[0].0, w[1].0)) by {
        lemma_common_prefix(w[0].0, w[1].0, 8);
    }
    assert(name_lt(w[1].0, w[2].0)) by {
        lemma_common_prefix(w[1].0, w[2].0, 8);
    }
    assert(name_lt(w[2].0, w[3].0)) by {
        lemma_common_prefix(w[2].0, w[3].0, 8);
    }
    assert(name_lt(w[3].0, w[4].0));
    assert(name_lt(w[4].0, w[5].0));
    if j > i + 1 {
        lemma_default_order(i, j - 1);
        lemma_name_lt_transitive(w[i].0, w[j - 1].0, w[j].0);
    }
}

} // verus!
