//! Deployment version identifiers, the registry of deployed versions with its bounded
//! history, and the request hash that routes traffic between deployments.
use vstd::prelude::*;
use vstd::std_specs::hash::DefaultHasherAdditionalSpecFns;
use std::collections::hash_map::DefaultHasher;
use std::hash::Hasher;
use crate::engine::rule_bundle::BundleId;
use crate::text::{decimal, owned, push_decimal, str_eq};

verus! {

/// A deployment version identifier.
#[derive(Debug, Clone, PartialEq, Eq, Hash)]
pub struct VersionId {
    id: String,
}

impl View for VersionId {
    type V = Seq<char>;

    closed spec fn view(&self) -> Seq<char> {
        self.id@
    }
}

impl VersionId {
    /// A version id with the given text.
    pub fn new(id: String) -> (r: Self)
        ensures
            r@ == id@,
    {
        VersionId { id }
    }

    /// The version id of a bundle: `v_` followed by the bundle id.
    pub fn from_bundle(bundle_id: &BundleId) -> (r: Self)
        ensures
            r@ == "v_"@ + bundle_id.0@,
    {
        let mut id = String::from_str("v_");
        id.append(bundle_id.as_str());
        VersionId { id }
    }

    /// The text of the id.
    pub fn as_str(&self) -> (r: &str)
        ensures
            r@ == self@,
    {
        self.id.as_str()
    }
}

impl VersionId {
    /// A copy of the id.
    pub fn duplicate(&self) -> (r: Self)
        ensures
            r@ == self@,
    {
        VersionId { id: owned(self.id.as_str()) }
    }
}

/// Whether two version ids have the same text.
fn same_version(a: &VersionId, b: &VersionId) -> (r: bool)
    ensures
        r == (a@ == b@),
{
    str_eq(a.as_str(), b.as_str())
}

/// Whether an optional version id names the given one.
fn names_version(o: &Option<VersionId>, v: &VersionId) -> (r: bool)
    ensures
        r == (o matches Some(x) && x@ == v@),
{
    match o {
        Some(x) => same_version(x, v),
        None => false,
    }
}

/// The text of an optional version id.
pub open spec fn opt_view(o: Option<VersionId>) -> Option<Seq<char>> {
    match o {
        Some(v) => Some(v@),
        None => None,
    }
}

/// The first entry under the version.
pub open spec fn find_version<E>(vs: Seq<(Seq<char>, E)>, id: Seq<char>) -> Option<E>
    decreases vs.len(),
{
    if vs.len() == 0 {
        None
    } else if vs[0].0 == id {
        Some(vs[0].1)
    } else {
        find_version(vs.drop_first(), id)
    }
}

/// The entries with the first one under the version replaced, or the entry appended
/// when the version has none (a map insertion keyed by version).
pub open spec fn put_version<E>(vs: Seq<(Seq<char>, E)>, id: Seq<char>, e: E) -> Seq<(Seq<char>, E)>
    decreases vs.len(),
{
    if vs.len() == 0 {
        seq![(id, e)]
    } else if vs[0].0 == id {
        seq![(id, e)] + vs.drop_first()
    } else {
        seq![vs[0]] + put_version(vs.drop_first(), id, e)
    }
}

/// The entries without the first one under the version.
pub open spec fn drop_version<E>(vs: Seq<(Seq<char>, E)>, id: Seq<char>) -> Seq<(Seq<char>, E)>
    decreases vs.len(),
{
    if vs.len() == 0 {
        vs
    } else if vs[0].0 == id {
        vs.drop_first()
    } else {
        seq![vs[0]] + drop_version(vs.drop_first(), id)
    }
}

/// The entries after the history is cut to `max`: each version that falls off the end
/// of the history, oldest first, loses its entry unless it is active or staged.
pub open spec fn trim_entries<E>(
    vs: Seq<(Seq<char>, E)>,
    history: Seq<Seq<char>>,
    max: usize,
    active: Option<Seq<char>>,
    staged: Option<Seq<char>>,
) -> Seq<(Seq<char>, E)>
    decreases history.len(),
{
    if history.len() <= max {
        vs
    } else {
        let old = history.last();
        let kept = if active == Some(old) || staged == Some(old) {
            vs
        } else {
            drop_version(vs, old)
        };
        trim_entries(kept, history.drop_last(), max, active, staged)
    }
}

/// The versions a registry knows, which is active and which staged, and the history.
pub struct RegistryView<E> {
    /// The version serving traffic
    pub active: Option<Seq<char>>,
    /// The version prepared but not active
    pub staged: Option<Seq<char>>,
    /// Entries by version, one per version
    pub versions: Seq<(Seq<char>, E)>,
    /// Versions added, most recent first
    pub history: Seq<Seq<char>>,
    /// How many versions the history keeps
    pub max_history: usize,
}

impl<E> RegistryView<E> {
    /// The registry after a version is added: its entry put under it, the version put
    /// at the front of the history, and the history cut to its maximum, the versions
    /// falling off losing their entries unless active or staged.
    pub open spec fn add(self, id: Seq<char>, e: E) -> Self {
        let history = seq![id] + self.history;
        RegistryView {
            versions: trim_entries(put_version(self.versions, id, e), history, self.max_history, self.active, self.staged),
            history: if history.len() > self.max_history {
                history.take(self.max_history as int)
            } else {
                history
            },
            ..self
        }
    }
}

/// The deployed versions with their entries, the active and staged versions, and the
/// history of deployments.
pub struct VersionRegistry<E> {
    active_version: Option<VersionId>,
    staged_version: Option<VersionId>,
    versions: Vec<(VersionId, E)>,
    history: Vec<VersionId>,
    max_history: usize,
}

/// Entries by version as values.
pub open spec fn versions_view<E>(v: Seq<(VersionId, E)>) -> Seq<(Seq<char>, E)> {
    v.map_values(|p: (VersionId, E)| (p.0@, p.1))
}

/// Version ids as texts.
pub open spec fn ids_view(v: Seq<VersionId>) -> Seq<Seq<char>> {
    v.map_values(|x: VersionId| x@)
}

impl<E> View for VersionRegistry<E> {
    type V = RegistryView<E>;

    closed spec fn view(&self) -> RegistryView<E> {
        RegistryView {
            active: opt_view(self.active_version),
            staged: opt_view(self.staged_version),
            versions: versions_view(self.versions@),
            history: ids_view(self.history@),
            max_history: self.max_history,
        }
    }
}

proof fn lemma_version_at<E>(vs: Seq<(Seq<char>, E)>, id: Seq<char>, e: E, k: int)
    requires
        0 <= k < vs.len(),
        vs[k].0 == id,
        forall|j: int| 0 <= j < k ==> (#[trigger] vs[j]).0 != id,
    ensures
        put_version(vs, id, e) == vs.update(k, (id, e)),
        drop_version(vs, id) == vs.remove(k),
        find_version(vs, id) == Some(vs[k].1),
    decreases vs.len(),
{
    if k == 0 {
        assert(seq![(id, e)] + vs.drop_first() =~= vs.update(0, (id, e)));
        assert(vs.drop_first() =~= vs.remove(0));
    } else {
        let t = vs.drop_first();
        assert forall|j: int| 0 <= j < k - 1 implies (#[trigger] t[j]).0 != id by {
            assert(t[j] == vs[j + 1]);
        }
        lemma_version_at(t, id, e, k - 1);
        assert(seq![vs[0]] + t.update(k - 1, (id, e)) =~= vs.update(k, (id, e)));
        assert(seq![vs[0]] + t.remove(k - 1) =~= vs.remove(k));
    }
}

proof fn lemma_version_absent<E>(vs: Seq<(Seq<char>, E)>, id: Seq<char>, e: E)
    requires
        forall|j: int| 0 <= j < vs.len() ==> (#[trigger] vs[j]).0 != id,
    ensures
        put_version(vs, id, e) == vs.push((id, e)),
        drop_version(vs, id) == vs,
        find_version(vs, id) is None,
    decreases vs.len(),
{
    if vs.len() == 0 {
        assert(seq![(id, e)] =~= vs.push((id, e)));
    } else {
        let t = vs.drop_first();
        assert forall|j: int| 0 <= j < t.len() implies (#[trigger] t[j]).0 != id by {
            assert(t[j] == vs[j + 1]);
        }
        lemma_version_absent(t, id, e);
        assert(seq![vs[0]] + t.push((id, e)) =~= vs.push((id, e)));
        assert(seq![vs[0]] + t =~= vs);
    }
}

/// The position of the first entry under the version.
fn version_position<E>(v: &Vec<(VersionId, E)>, id: &VersionId) -> (r: Option<usize>)
    ensures
        match r {
            Some(k) => k < v@.len() && versions_view(v@)[k as int].0 == id@ && forall|j: int|
                0 <= j < k ==> (#[trigger] versions_view(v@)[j]).0 != id@,
            None => forall|j: int| 0 <= j < v@.len() ==> (#[trigger] versions_view(v@)[j]).0 != id@,
        },
{
    let n = v.len();
    let mut i: usize = 0;
    while i < n
        invariant
            n == v@.len(),
            i <= n,
            forall|j: int| 0 <= j < i ==> (#[trigger] versions_view(v@)[j]).0 != id@,
        decreases n - i,
    {
        if same_version(&v[i].0, id) {
            return Some(i);
        }
        i = i + 1;
    }
    None
}

impl<E> VersionRegistry<E> {
    /// An empty registry whose history keeps `max_history` versions.
    pub fn new(max_history: usize) -> (r: Self)
        ensures
            r@.active is None,
            r@.staged is None,
            r@.versions.len() == 0,
            r@.history.len() == 0,
            r@.max_history == max_history,
    {
        VersionRegistry {
            active_version: None,
            staged_version: None,
            versions: Vec::new(),
            history: Vec::new(),
            max_history,
        }
    }

    /// Puts the entry under the version (replacing what was there).
    fn put(&mut self, version_id: VersionId, entry: E)
        ensures
            final(self)@ == (RegistryView { versions: put_version(old(self)@.versions, version_id@, entry), ..old(self)@ }),
    {
        let ghost vs = versions_view(self.versions@);
        let ghost id = version_id@;
        match version_position(&self.versions, &version_id) {
            Some(k) => {
                proof {
                    lemma_version_at(vs, id, entry, k as int);
                }
                self.versions.set(k, (version_id, entry));
                proof {
                    assert(versions_view(self.versions@) =~= vs.update(k as int, (id, entry)));
                }
            },
            None => {
                proof {
                    lemma_version_absent(vs, id, entry);
                }
                self.versions.push((version_id, entry));
                proof {
                    assert(versions_view(self.versions@) =~= vs.push((id, entry)));
                }
            },
        }
    }

    /// Takes out the entry under the version, if there is one.
    fn drop(&mut self, version_id: &VersionId)
        ensures
            final(self)@ == (RegistryView { versions: drop_version(old(self)@.versions, version_id@), ..old(self)@ }),
    {
        let ghost vs = versions_view(self.versions@);
        match version_position(&self.versions, version_id) {
            Some(k) => {
                proof {
                    lemma_version_at(vs, version_id@, vs[k as int].1, k as int);
                }
                self.versions.remove(k);
                proof {
                    assert(versions_view(self.versions@) =~= vs.remove(k as int));
                }
            },
            None => {
                proof {
                    lemma_version_absent(vs, version_id@, vs[0].1);
                }
            },
        }
    }

    /// Adds a version: its entry goes under it and it goes to the front of the
    /// history; then the history is cut to its maximum, and each version that falls off
    /// its end loses its entry unless it is the active or the staged version.
    pub fn add_version(&mut self, version_id: VersionId, entry: E)
        ensures
            final(self)@ == old(self)@.add(version_id@, entry),
    {
        let front = version_id.duplicate();
        self.put(version_id, entry);
        self.history.insert(0, front);
        proof {
            assert(ids_view(self.history@) =~= seq![front@] + old(self)@.history);
        }
        let ghost full = ids_view(self.history@);
        let ghost start = versions_view(self.versions@);
        while self.history.len() > self.max_history
            invariant
                self@.active == old(self)@.active,
                self@.staged == old(self)@.staged,
                self@.max_history == old(self)@.max_history,
                self.max_history == old(self)@.max_history,
                full.len() >= ids_view(self.history@).len(),
                ids_view(self.history@) == full.take(ids_view(self.history@).len() as int),
                ids_view(self.history@).len() >= self.max_history || full.len() <= self.max_history,
                full.len() <= self.max_history ==> ids_view(self.history@).len() == full.len(),
                trim_entries(self@.versions, ids_view(self.history@), self.max_history, self@.active, self@.staged)
                    == trim_entries(start, full, self.max_history, self@.active, self@.staged),
            decreases self.history.len(),
        {
            let ghost h = ids_view(self.history@);
            let old_id = self.history.pop().unwrap();
            proof {
                assert(h.last() == old_id@);
                assert(ids_view(self.history@) =~= h.drop_last());
                assert(h.drop_last() =~= full.take(h.len() - 1));
            }
            if !names_version(&self.active_version, &old_id) && !names_version(&self.staged_version, &old_id) {
                self.drop(&old_id);
            }
        }
        proof {
            let h = ids_view(self.history@);
            if full.len() > self.max_history {
                assert(h.len() == self.max_history);
            } else {
                assert(h =~= full);
            }
        }
    }

    /// The entry of the active version.
    pub fn get_active(&self) -> (r: Option<&E>)
        ensures
            match r {
                Some(e) => self@.active matches Some(a) && find_version(self@.versions, a) == Some(*e),
                None => match self@.active {
                    Some(a) => find_version(self@.versions, a) is None,
                    None => true,
                },
            },
    {
        match &self.active_version {
            Some(a) => self.get_version(a),
            None => None,
        }
    }

    /// The entry of the staged version.
    pub fn get_staged(&self) -> (r: Option<&E>)
        ensures
            match r {
                Some(e) => self@.staged matches Some(a) && find_version(self@.versions, a) == Some(*e),
                None => match self@.staged {
                    Some(a) => find_version(self@.versions, a) is None,
                    None => true,
                },
            },
    {
        match &self.staged_version {
            Some(a) => self.get_version(a),
            None => None,
        }
    }

    /// The entry of a version.
    pub fn get_version(&self, version_id: &VersionId) -> (r: Option<&E>)
        ensures
            match r {
                Some(e) => find_version(self@.versions, version_id@) == Some(*e),
                None => find_version(self@.versions, version_id@) is None,
            },
    {
        let ghost vs = versions_view(self.versions@);
        match version_position(&self.versions, version_id) {
            Some(k) => {
                proof {
                    lemma_version_at(vs, version_id@, vs[k as int].1, k as int);
                }
                Some(&self.versions[k].1)
            },
            None => {
                proof {
                    lemma_version_absent(vs, version_id@, vs[0].1);
                }
                None
            },
        }
    }

    /// Replaces the entry of a version that has one; answers whether it had.
    pub fn set_version_entry(&mut self, version_id: &VersionId, entry: E) -> (r: bool)
        ensures
            r == (find_version(old(self)@.versions, version_id@) is Some),
            r ==> final(self)@ == (RegistryView { versions: put_version(old(self)@.versions, version_id@, entry), ..old(self)@ }),
            !r ==> final(self)@ == old(self)@,
    {
        let ghost vs = versions_view(self.versions@);
        match version_position(&self.versions, version_id) {
            Some(k) => {
                proof {
                    lemma_version_at(vs, version_id@, entry, k as int);
                }
                self.put(version_id.duplicate(), entry);
                true
            },
            None => {
                proof {
                    lemma_version_absent(vs, version_id@, entry);
                }
                false
            },
        }
    }

    /// Makes the version the active one.
    pub fn set_active(&mut self, version_id: VersionId)
        ensures
            final(self)@ == (RegistryView { active: Some(version_id@), ..old(self)@ }),
    {
        self.active_version = Some(version_id);
    }

    /// Makes the version the staged one.
    pub fn set_staged(&mut self, version_id: VersionId)
        ensures
            final(self)@ == (RegistryView { staged: Some(version_id@), ..old(self)@ }),
    {
        self.staged_version = Some(version_id);
    }

    /// The active version, if any.
    pub fn active_version(&self) -> (r: Option<VersionId>)
        ensures
            opt_view(r) == self@.active,
    {
        match &self.active_version {
            Some(a) => Some(a.duplicate()),
            None => None,
        }
    }

    /// The history, most recent first.
    pub fn get_history(&self) -> (r: Vec<VersionId>)
        ensures
            ids_view(r@) == self@.history,
    {
        let mut out: Vec<VersionId> = Vec::new();
        let n = self.history.len();
        let mut i: usize = 0;
        while i < n
            invariant
                n == self.history@.len(),
                i <= n,
                ids_view(out@) == ids_view(self.history@).take(i as int),
            decreases n - i,
        {
            let ghost prev = out@;
            out.push(self.history[i].duplicate());
            proof {
                assert(ids_view(out@) =~= ids_view(prev).push(self.history@[i as int]@));
                assert(ids_view(self.history@).take(i + 1) =~= ids_view(self.history@).take(i as int).push(
                    self.history@[i as int]@,
                ));
            }
            i = i + 1;
        }
        proof {
            assert(ids_view(self.history@).take(n as int) =~= ids_view(self.history@));
        }
        out
    }

    /// Rolls back to the previous deployment: with at least two versions in the
    /// history, the second most recent becomes active, and the most recent and the
    /// second are handed back; otherwise an error and no change.
    pub fn rollback(&mut self) -> (r: Result<(VersionId, VersionId), String>)
        ensures
            match r {
                Ok((current, previous)) => {
                    &&& old(self)@.history.len() >= 2
                    &&& current@ == old(self)@.history[0]
                    &&& previous@ == old(self)@.history[1]
                    &&& final(self)@ == (RegistryView { active: Some(old(self)@.history[1]), ..old(self)@ })
                },
                Err(msg) => {
                    &&& old(self)@.history.len() < 2
                    &&& msg@ == "No previous version to rollback to"@
                    &&& final(self)@ == old(self)@
                },
            },
    {
        if self.history.len() < 2 {
            return Err(String::from_str("No previous version to rollback to"));
        }
        let current = self.history[0].duplicate();
        let previous = self.history[1].duplicate();
        proof {
            assert(ids_view(self.history@)[0] == self.history@[0]@);
            assert(ids_view(self.history@)[1] == self.history@[1]@);
        }
        self.set_active(previous.duplicate());
        Ok((current, previous))
    }
}

proof fn lemma_find_put<E>(vs: Seq<(Seq<char>, E)>, id: Seq<char>, e: E)
    ensures
        find_version(put_version(vs, id, e), id) == Some(e),
    decreases vs.len(),
{
    if vs.len() > 0 && vs[0].0 != id {
        lemma_find_put(vs.drop_first(), id, e);
        let r = seq![vs[0]] + put_version(vs.drop_first(), id, e);
        assert(r.drop_first() =~= put_version(vs.drop_first(), id, e));
    }
}

proof fn lemma_find_drop_other<E>(vs: Seq<(Seq<char>, E)>, gone: Seq<char>, id: Seq<char>)
    requires
        gone != id,
    ensures
        find_version(drop_version(vs, gone), id) == find_version(vs, id),
    decreases vs.len(),
{
    if vs.len() > 0 && vs[0].0 != gone {
        lemma_find_drop_other(vs.drop_first(), gone, id);
        let r = seq![vs[0]] + drop_version(vs.drop_first(), gone);
        assert(r.drop_first() =~= drop_version(vs.drop_first(), gone));
    }
}

proof fn lemma_find_trim<E>(
    vs: Seq<(Seq<char>, E)>,
    history: Seq<Seq<char>>,
    max: usize,
    active: Option<Seq<char>>,
    staged: Option<Seq<char>>,
    id: Seq<char>,
)
    requires
        forall|k: int| max <= k < history.len() ==> history[k] != id,
    ensures
        find_version(trim_entries(vs, history, max, active, staged), id) == find_version(vs, id),
    decreases history.len(),
{
    if history.len() > max {
        let old = history.last();
        assert(old == history[history.len() - 1]);
        let kept = if active == Some(old) || staged == Some(old) {
            vs
        } else {
            drop_version(vs, old)
        };
        if !(active == Some(old) || staged == Some(old)) {
            lemma_find_drop_other(vs, old, id);
        }
        let h = history.drop_last();
        assert forall|k: int| max <= k < h.len() implies h[k] != id by {
            assert(h[k] == history[k]);
        }
        lemma_find_trim(kept, h, max, active, staged, id);
    }
}

/// Adding a version keeps the history within its maximum; when the history keeps at
/// least one version and the added one is new to it, the added version heads the
/// history and its entry is the one registered under it.
pub proof fn lemma_add_version<E>(t: RegistryView<E>, id: Seq<char>, e: E)
    ensures
        t.add(id, e).history.len() <= t.max_history,
        t.max_history >= 1 ==> t.add(id, e).history[0] == id,
        t.max_history >= 1 && !t.history.contains(id) ==> find_version(t.add(id, e).versions, id) == Some(e),
{
    let full = seq![id] + t.history;
    assert(full[0] == id);
    if t.max_history >= 1 && !t.history.contains(id) {
        assert forall|k: int| t.max_history <= k < full.len() implies full[k] != id by {
            assert(full[k] == t.history[k - 1]);
        }
        lemma_find_put(t.versions, id, e);
        lemma_find_trim(put_version(t.versions, id, e), full, t.max_history, t.active, t.staged, id);
    }
}

/// How a deployment is activated, as far as activation decides on it.
#[derive(Debug, Clone, Copy, PartialEq, Eq, Structural)]
pub enum StrategyKind {
    /// Swapped in at once
    BlueGreen,
    /// Rolled out in stages
    Canary,
    /// Traffic split between versions
    ABTest,
    /// Swapped in at a set time (Unix seconds)
    Scheduled {
        /// When it may go active
        activation_time: u64,
    },
}

/// What activating a staged version does.
#[derive(Debug, Clone, Copy, PartialEq, Eq, Structural)]
pub enum ActivationStep {
    /// The version goes active at once and the deployment is complete
    ActivateAndComplete,
    /// The version goes active at once and the deployment stays open
    Activate,
    /// A gradual rollout of the version starts
    StartRollout,
    /// Refused: the scheduled time has not come
    NotYet,
    /// Refused: the version is not staged
    NotStaged,
}

/// What activating a version deployed with the strategy does when the clock reads
/// `now_secs`: a version that is not staged is refused; otherwise blue-green goes active
/// and completes, a canary starts its rollout, an A/B test goes active, and a scheduled
/// deployment goes active and completes once its time has come.
pub fn activation_step(kind: StrategyKind, staged: bool, now_secs: u64) -> (r: ActivationStep)
    ensures
        r == if !staged {
            ActivationStep::NotStaged
        } else {
            match kind {
                StrategyKind::BlueGreen => ActivationStep::ActivateAndComplete,
                StrategyKind::Canary => ActivationStep::StartRollout,
                StrategyKind::ABTest => ActivationStep::Activate,
                StrategyKind::Scheduled { activation_time } => if now_secs >= activation_time {
                    ActivationStep::ActivateAndComplete
                } else {
                    ActivationStep::NotYet
                },
            }
        },
{
    if !staged {
        return ActivationStep::NotStaged;
    }
    match kind {
        StrategyKind::BlueGreen => ActivationStep::ActivateAndComplete,
        StrategyKind::Canary => ActivationStep::StartRollout,
        StrategyKind::ABTest => ActivationStep::Activate,
        StrategyKind::Scheduled { activation_time } => {
            if now_secs >= activation_time {
                ActivationStep::ActivateAndComplete
            } else {
                ActivationStep::NotYet
            }
        },
    }
}

/// Whether a canary rollout moves to its next stage: the current stage has lasted its
/// duration and a stage remains.
pub fn rollout_may_advance(elapsed_nanos: u128, stage_duration_nanos: u128, current_stage: usize, stage_count: usize) -> (r: bool)
    ensures
        r == (elapsed_nanos >= stage_duration_nanos && current_stage < stage_count),
{
    if elapsed_nanos < stage_duration_nanos {
        return false;
    }
    current_stage < stage_count
}

/// The message for a version the registry does not hold.
pub fn version_not_found(version_id: &VersionId) -> (r: String)
    ensures
        r@ == "Version "@ + version_id@ + " not found"@,
{
    let mut s = String::from_str("Version ");
    s.append(version_id.as_str());
    s.append(" not found");
    s
}

/// The message for a scheduled activation asked for too early.
pub fn activation_not_reached(activation_time: u64) -> (r: String)
    ensures
        r@ == "Activation time not reached (scheduled: "@ + decimal(activation_time as nat) + ")"@,
{
    let mut s = String::from_str("Activation time not reached (scheduled: ");
    push_decimal(&mut s, activation_time);
    s.append(")");
    s
}

/// Which version a request goes to while a new version rolls out.
#[derive(Debug, Clone, Copy, PartialEq, Eq, Structural)]
pub enum VersionSelection {
    /// The version serving before the rollout
    Old,
    /// The version rolling out
    New,
}

/// The number of places on the ring that requests are spread over.
pub const HASH_RING_SIZE: u64 = 10000;

/// Where a request goes when the new version takes `threshold` of the ring's places: to
/// the new version when the request's place, its hash modulo the ring's size, is below
/// the threshold.
pub open spec fn routed(request_hash: u64, threshold: u64) -> VersionSelection {
    if request_hash % HASH_RING_SIZE < threshold {
        VersionSelection::New
    } else {
        VersionSelection::Old
    }
}

/// Routes a request during a rollout in which the new version takes `threshold` of
/// the ring's places.
pub fn route_request(request_hash: u64, threshold: u64) -> (r: VersionSelection)
    ensures
        r == routed(request_hash, threshold),
{
    if request_hash % HASH_RING_SIZE < threshold {
        VersionSelection::New
    } else {
        VersionSelection::Old
    }
}

/// Routing is stable as a rollout widens: a request that goes to the new version still
/// does under any larger share; with no share every request stays on the old version,
/// and with the whole ring every request goes to the new one.
pub proof fn lemma_routing_monotone(request_hash: u64, smaller: u64, larger: u64)
    requires
        smaller <= larger,
    ensures
        routed(request_hash, smaller) == VersionSelection::New ==> routed(request_hash, larger) == VersionSelection::New,
        routed(request_hash, 0) == VersionSelection::Old,
        larger >= HASH_RING_SIZE ==> routed(request_hash, larger) == VersionSelection::New,
{
}


/// What hashing a string with `Hash::hash` writes into a `DefaultHasher` whose writes
/// so far are `prev`: the writes after the call.
pub uninterp spec fn str_hash_writes(prev: Seq<Seq<u8>>, s: Seq<char>) -> Seq<Seq<u8>>;

/// Calls `<str as Hash>::hash` on a `DefaultHasher`. Claims the hasher's writes after
/// the call are a function of its writes before and of the string alone; which bytes
/// `str` writes is not claimed.
#[verifier::external_body]
fn hash_str(s: &str, hasher: &mut DefaultHasher)
    ensures
        final(hasher)@ == str_hash_writes(old(hasher)@, s@),
{
    std::hash::Hash::hash(s, hasher)
}

/// The hash that std's `DefaultHasher::new()` gives after hashing the agent id and
/// then the flow id.
pub open spec fn request_hash(agent_id: Seq<char>, flow_id: Seq<char>) -> u64 {
    DefaultHasher::spec_finish(
        str_hash_writes(str_hash_writes(Seq::empty(), agent_id), flow_id),
    )
}

/// Hashes the agent id and then the flow id with a fresh `DefaultHasher`: the same
/// pair of ids always routes alike.
pub fn compute_request_hash(agent_id: &str, flow_id: &str) -> (r: u64)
    ensures
        r == request_hash(agent_id@, flow_id@),
{
    let mut hasher = DefaultHasher::new();
    hash_str(agent_id, &mut hasher);
    hash_str(flow_id, &mut hasher);
    hasher.finish()
}

} // verus!
