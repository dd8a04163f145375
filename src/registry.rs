use vstd::prelude::*;
use crate::bytes::{bytes_eq, copy_bytes};
use crate::error::Error;

verus! {

/// What the registry knows of one participant.
pub struct Participant {
    pub public_key: Vec<u8>,
    pub has_entered: bool,
    pub chosen_by: Option<Vec<u8>>,
    pub has_revealed: bool,
}

/// The mathematical value of a participant's flags and chooser mark. A
/// choice does not name its chooser: the mark of a chosen participant is the
/// key-exchange public key that its chooser bound, by which the chooser, and
/// nobody else, recognises their own choice.
pub struct ParticipantView {
    pub has_entered: bool,
    pub chosen_by: Option<Seq<u8>>,
    pub has_revealed: bool,
}

pub open spec fn option_bytes_view(o: Option<Vec<u8>>) -> Option<Seq<u8>> {
    match o {
        Some(v) => Some(v@),
        None => None,
    }
}

impl View for Participant {
    type V = ParticipantView;

    open spec fn view(&self) -> ParticipantView {
        ParticipantView {
            has_entered: self.has_entered,
            chosen_by: option_bytes_view(self.chosen_by),
            has_revealed: self.has_revealed,
        }
    }
}

fn copy_option_bytes(o: &Option<Vec<u8>>) -> (r: Option<Vec<u8>>)
    ensures
        option_bytes_view(r) == option_bytes_view(*o),
{
    match o {
        Some(v) => Some(copy_bytes(v.as_slice())),
        None => None,
    }
}

impl Participant {
    /// A copy of the participant.
    pub fn copy(&self) -> (r: Participant)
        ensures
            r@ == self@,
            r.public_key@ == self.public_key@,
    {
        Participant {
            public_key: copy_bytes(self.public_key.as_slice()),
            has_entered: self.has_entered,
            chosen_by: copy_option_bytes(&self.chosen_by),
            has_revealed: self.has_revealed,
        }
    }
}

/// A participant right after its first Enter.
pub open spec fn fresh_entrant() -> ParticipantView {
    ParticipantView { has_entered: true, chosen_by: None, has_revealed: false }
}

/// Folding an Enter of `k`: the first one creates the entry, later ones
/// change nothing.
pub open spec fn enter_spec(m: Map<Seq<u8>, ParticipantView>, k: Seq<u8>) -> Map<
    Seq<u8>,
    ParticipantView,
> {
    if m.contains_key(k) {
        m
    } else {
        m.insert(k, fresh_entrant())
    }
}

/// Whether `k` has entered.
pub open spec fn entered(m: Map<Seq<u8>, ParticipantView>, k: Seq<u8>) -> bool {
    m.contains_key(k) && m[k].has_entered
}

/// The verdict of the registry on a choice of `target`, whoever made it:
/// the target must have entered and must not be chosen yet.
pub open spec fn target_verdict(m: Map<Seq<u8>, ParticipantView>, target: Seq<u8>) -> Result<
    (),
    Error,
> {
    if !entered(m, target) {
        Err(Error::TargetNotFound)
    } else if m[target].chosen_by.is_some() {
        Err(Error::AlreadyChosen)
    } else {
        Ok(())
    }
}

/// The verdict on `chooser` choosing `target`, as the chooser checks it
/// before making the choice: the chooser must have entered too.
pub open spec fn choice_verdict(
    m: Map<Seq<u8>, ParticipantView>,
    chooser: Seq<u8>,
    target: Seq<u8>,
) -> Result<(), Error> {
    if !entered(m, chooser) {
        Err(Error::NotEntered)
    } else {
        target_verdict(m, target)
    }
}

/// Folding an accepted choice: the target is marked with the chooser's
/// key-exchange public key `mark`.
pub open spec fn choose_spec(
    m: Map<Seq<u8>, ParticipantView>,
    mark: Seq<u8>,
    target: Seq<u8>,
) -> Map<Seq<u8>, ParticipantView> {
    m.insert(target, ParticipantView { chosen_by: Some(mark), ..m[target] })
}

/// The verdict on `k` revealing: only a chosen participant may.
pub open spec fn reveal_verdict(m: Map<Seq<u8>, ParticipantView>, k: Seq<u8>) -> Result<
    (),
    Error,
> {
    if m.contains_key(k) && m[k].chosen_by.is_some() {
        Ok(())
    } else {
        Err(Error::NotChosen)
    }
}

/// Folding an accepted reveal.
pub open spec fn reveal_spec(m: Map<Seq<u8>, ParticipantView>, k: Seq<u8>) -> Map<
    Seq<u8>,
    ParticipantView,
> {
    m.insert(k, ParticipantView { has_revealed: true, ..m[k] })
}


/// A protocol event as the registry folds it.
pub enum RegistryEvent {
    Entered { public_key: Vec<u8> },
    Chose { mark: Vec<u8>, chosen: Vec<u8> },
    Revealed { public_key: Vec<u8> },
}

/// The mathematical value of a registry event.
pub enum EventView {
    Entered(Seq<u8>),
    Chose(Seq<u8>, Seq<u8>),
    Revealed(Seq<u8>),
}

impl View for RegistryEvent {
    type V = EventView;

    open spec fn view(&self) -> EventView {
        match self {
            RegistryEvent::Entered { public_key } => EventView::Entered(public_key@),
            RegistryEvent::Chose { mark, chosen } => EventView::Chose(mark@, chosen@),
            RegistryEvent::Revealed { public_key } => EventView::Revealed(public_key@),
        }
    }
}

/// Folding one event: an event that its verdict refuses leaves the registry
/// as it was.
pub open spec fn step(m: Map<Seq<u8>, ParticipantView>, e: EventView) -> Map<
    Seq<u8>,
    ParticipantView,
> {
    match e {
        EventView::Entered(k) => enter_spec(m, k),
        EventView::Chose(c, t) => if target_verdict(m, t) is Ok {
            choose_spec(m, c, t)
        } else {
            m
        },
        EventView::Revealed(k) => if reveal_verdict(m, k) is Ok {
            reveal_spec(m, k)
        } else {
            m
        },
    }
}

/// The registry that a history of events folds to, starting from `m`.
pub open spec fn fold_events(m: Map<Seq<u8>, ParticipantView>, s: Seq<EventView>) -> Map<
    Seq<u8>,
    ParticipantView,
>
    decreases s.len(),
{
    if s.len() == 0 {
        m
    } else {
        step(fold_events(m, s.drop_last()), s.last())
    }
}

/// Every participant in `m` has entered: what a fold from the empty
/// registry always gives.
pub open spec fn all_entered(m: Map<Seq<u8>, ParticipantView>) -> bool {
    forall|k: Seq<u8>| #[trigger] m.contains_key(k) ==> m[k].has_entered
}

/// Folding keeps every participant entered.
pub proof fn lemma_fold_all_entered(m: Map<Seq<u8>, ParticipantView>, s: Seq<EventView>)
    requires
        all_entered(m),
    ensures
        all_entered(fold_events(m, s)),
    decreases s.len(),
{
    if s.len() > 0 {
        lemma_fold_all_entered(m, s.drop_last());
    }
}

/// `n` Enter events of the key `k`.
pub open spec fn enters(k: Seq<u8>, n: nat) -> Seq<EventView> {
    Seq::new(n, |i: int| EventView::Entered(k))
}

/// However many Enter records a participant has, folding them is folding
/// one: the participant has entered, and every extra record leaves the
/// registry unchanged.
pub proof fn lemma_enter_idempotent(
    m: Map<Seq<u8>, ParticipantView>,
    s: Seq<EventView>,
    k: Seq<u8>,
    n: nat,
)
    requires
        all_entered(m),
        n >= 1,
    ensures
        fold_events(m, s + enters(k, n)) == fold_events(m, s.push(EventView::Entered(k))),
        entered(fold_events(m, s + enters(k, n)), k),
    decreases n,
{
    let once = fold_events(m, s.push(EventView::Entered(k)));
    assert(s.push(EventView::Entered(k)).drop_last() =~= s);
    lemma_fold_all_entered(m, s);
    let before = fold_events(m, s);
    assert(once == enter_spec(before, k));
    assert(once.contains_key(k));
    if !before.contains_key(k) {
        assert(once[k] == fresh_entrant());
    }
    if n == 1 {
        assert(s + enters(k, 1) =~= s.push(EventView::Entered(k)));
    } else {
        lemma_enter_idempotent(m, s, k, (n - 1) as nat);
        assert((s + enters(k, n)).drop_last() =~= s + enters(k, (n - 1) as nat));
        assert((s + enters(k, n)).last() == EventView::Entered(k));
    }
}

/// A choice of a target that never entered, by a chooser that has entered,
/// is refused with `TargetNotFound`, and folding it, under any mark, changes
/// nothing.
pub proof fn lemma_unknown_target_refused(
    m: Map<Seq<u8>, ParticipantView>,
    chooser: Seq<u8>,
    k: Seq<u8>,
    mark: Seq<u8>,
)
    requires
        entered(m, chooser),
        !entered(m, k),
    ensures
        choice_verdict(m, chooser, k) == Err::<(), Error>(Error::TargetNotFound),
        step(m, EventView::Chose(mark, k)) == m,
{
}

/// Once `a` has chosen `b` under the mark `mark_a`, any other participant
/// `c` that has entered and then chooses `b`, under any mark, is refused with
/// `AlreadyChosen`, and `b` stays marked by `a`'s choice.
pub proof fn lemma_first_choice_wins(
    m: Map<Seq<u8>, ParticipantView>,
    a: Seq<u8>,
    mark_a: Seq<u8>,
    b: Seq<u8>,
    c: Seq<u8>,
    mark_c: Seq<u8>,
)
    requires
        choice_verdict(m, a, b) is Ok,
        c != a,
        entered(m, c),
    ensures
        choose_spec(m, mark_a, b)[b].chosen_by == Some(mark_a),
        choice_verdict(choose_spec(m, mark_a, b), c, b) == Err::<(), Error>(Error::AlreadyChosen),
        step(choose_spec(m, mark_a, b), EventView::Chose(mark_c, b)) == choose_spec(m, mark_a, b),
{
}

/// The participants keyed by public key.
pub struct Registry {
    entries: Vec<Participant>,
    model: Ghost<Map<Seq<u8>, ParticipantView>>,
}

impl View for Registry {
    type V = Map<Seq<u8>, ParticipantView>;

    closed spec fn view(&self) -> Map<Seq<u8>, ParticipantView> {
        self.model@
    }
}

impl Registry {
    /// The entries agree with the model, their keys are distinct, and every
    /// key of the model has an entry.
    pub closed spec fn wf(&self) -> bool {
        &&& forall|i: int|
            0 <= i < self.entries@.len() ==> {
                &&& self.model@.contains_key(#[trigger] self.entries@[i].public_key@)
                &&& self.model@[self.entries@[i].public_key@] == self.entries@[i]@
            }
        &&& forall|i: int, j: int|
            0 <= i < self.entries@.len() && 0 <= j < self.entries@.len() && i != j
                ==> #[trigger] self.entries@[i].public_key@ != #[trigger] self.entries@[j].public_key@
        &&& forall|k: Seq<u8>|
            #[trigger] self.model@.contains_key(k) ==> exists|i: int|
                0 <= i < self.entries@.len() && #[trigger] self.entries@[i].public_key@ == k
    }

    /// An empty registry.
    pub fn new() -> (r: Registry)
        ensures
            r.wf(),
            r@ == Map::<Seq<u8>, ParticipantView>::empty(),
    {
        Registry { entries: Vec::new(), model: Ghost(Map::empty()) }
    }

    fn find(&self, k: &[u8]) -> (r: Option<usize>)
        requires
            self.wf(),
        ensures
            match r {
                Some(i) => i < self.entries@.len() && self.entries@[i as int].public_key@ == k@
                    && self@.contains_key(k@),
                None => !self@.contains_key(k@),
            },
    {
        let mut i: usize = 0;
        while i < self.entries.len()
            invariant
                self.wf(),
                i <= self.entries@.len(),
                forall|j: int| 0 <= j < i ==> self.entries@[j].public_key@ != k@,
            decreases self.entries@.len() - i,
        {
            if bytes_eq(self.entries[i].public_key.as_slice(), k) {
                return Some(i);
            }
            i = i + 1;
        }
        None
    }

    /// The participant with public key `k`, if it has entered.
    pub fn get(&self, k: &[u8]) -> (r: Option<&Participant>)
        requires
            self.wf(),
        ensures
            r.is_some() == self@.contains_key(k@),
            r matches Some(p) ==> p@ == self@[k@] && p.public_key@ == k@,
    {
        match self.find(k) {
            Some(i) => Some(&self.entries[i]),
            None => None,
        }
    }

    /// Whether `k` has entered.
    pub fn has_entered(&self, k: &[u8]) -> (r: bool)
        requires
            self.wf(),
        ensures
            r == entered(self@, k@),
    {
        match self.get(k) {
            Some(p) => p.has_entered,
            None => false,
        }
    }

    /// Whether somebody has chosen `k`.
    pub fn has_santa(&self, k: &[u8]) -> (r: bool)
        requires
            self.wf(),
        ensures
            r == (self@.contains_key(k@) && self@[k@].chosen_by.is_some()),
    {
        match self.get(k) {
            Some(p) => p.chosen_by.is_some(),
            None => false,
        }
    }

    /// The mark of the choice of `k`: the key-exchange public key that its
    /// chooser bound.
    pub fn chosen_by(&self, k: &[u8]) -> (r: Option<Vec<u8>>)
        requires
            self.wf(),
        ensures
            option_bytes_view(r) == (if self@.contains_key(k@) {
                self@[k@].chosen_by
            } else {
                None
            }),
    {
        match self.get(k) {
            Some(p) => copy_option_bytes(&p.chosen_by),
            None => None,
        }
    }

    /// Replaces the entry at `i` by one with the same key.
    fn set_entry(&mut self, i: usize, p: Participant)
        requires
            old(self).wf(),
            i < old(self).entries@.len(),
            p.public_key@ == old(self).entries@[i as int].public_key@,
        ensures
            final(self).wf(),
            final(self)@ == old(self)@.insert(p.public_key@, p@),
            final(self).entries@.len() == old(self).entries@.len(),
    {
        let ghost k = p.public_key@;
        let ghost v = p@;
        self.entries.set(i, p);
        self.model = Ghost(self.model@.insert(k, v));
        assert forall|key: Seq<u8>| #[trigger] self.model@.contains_key(key) implies exists|j: int|
            0 <= j < self.entries@.len() && #[trigger] self.entries@[j].public_key@ == key by {
            if key != k {
                assert(old(self).model@.contains_key(key));
                let j = choose|j: int|
                    0 <= j < old(self).entries@.len() && #[trigger] old(self).entries@[j].public_key@
                        == key;
                assert(self.entries@[j].public_key@ == key);
            } else {
                assert(self.entries@[i as int].public_key@ == key);
            }
        }
    }

    /// Adds an entry under a key that has none.
    fn push_entry(&mut self, p: Participant)
        requires
            old(self).wf(),
            !old(self)@.contains_key(p.public_key@),
        ensures
            final(self).wf(),
            final(self)@ == old(self)@.insert(p.public_key@, p@),
    {
        let ghost k = p.public_key@;
        let ghost v = p@;
        self.entries.push(p);
        self.model = Ghost(self.model@.insert(k, v));
        let ghost n = old(self).entries@.len() as int;
        assert(self.entries@[n].public_key@ == k);
        assert forall|i: int| 0 <= i < n implies #[trigger] self.entries@[i].public_key@ != k by {
            assert(old(self).model@.contains_key(old(self).entries@[i].public_key@));
        }
        assert forall|key: Seq<u8>| #[trigger] self.model@.contains_key(key) implies exists|j: int|
            0 <= j < self.entries@.len() && #[trigger] self.entries@[j].public_key@ == key by {
            if key != k {
                assert(old(self).model@.contains_key(key));
                let j = choose|j: int|
                    0 <= j < old(self).entries@.len() && #[trigger] old(self).entries@[j].public_key@
                        == key;
                assert(self.entries@[j].public_key@ == key);
            }
        }
    }

    /// Folds an Enter of `k`. A second Enter of the same key changes nothing.
    pub fn record_enter(&mut self, k: &[u8])
        requires
            old(self).wf(),
        ensures
            final(self).wf(),
            final(self)@ == enter_spec(old(self)@, k@),
    {
        if self.find(k).is_none() {
            let p = Participant {
                public_key: copy_bytes(k),
                has_entered: true,
                chosen_by: None,
                has_revealed: false,
            };
            self.push_entry(p);
        }
    }

    /// Decides whether `chooser` may choose `target`, without changing anything.
    pub fn check_choice(&self, chooser: &[u8], target: &[u8]) -> (r: Result<(), Error>)
        requires
            self.wf(),
        ensures
            r == choice_verdict(self@, chooser@, target@),
    {
        if !self.has_entered(chooser) {
            return Err(Error::NotEntered);
        }
        if !self.has_entered(target) {
            return Err(Error::TargetNotFound);
        }
        if self.has_santa(target) {
            return Err(Error::AlreadyChosen);
        }
        Ok(())
    }

    /// Folds a choice of `target` under the chooser's mark. Only the first
    /// accepted choice of a target counts: a later one is refused and changes
    /// nothing.
    pub fn record_choice(&mut self, mark: &[u8], target: &[u8]) -> (r: Result<(), Error>)
        requires
            old(self).wf(),
        ensures
            final(self).wf(),
            r == target_verdict(old(self)@, target@),
            r is Ok ==> final(self)@ == choose_spec(old(self)@, mark@, target@),
            r is Err ==> final(self)@ == old(self)@,
    {
        match self.find(target) {
            None => Err(Error::TargetNotFound),
            Some(ti) => {
                if !self.entries[ti].has_entered {
                    return Err(Error::TargetNotFound);
                }
                if self.entries[ti].chosen_by.is_some() {
                    return Err(Error::AlreadyChosen);
                }
                let mut t = self.entries[ti].copy();
                t.chosen_by = Some(copy_bytes(mark));
                self.set_entry(ti, t);
                Ok(())
            },
        }
    }

    /// Decides whether `k` may reveal, without changing anything.
    pub fn check_reveal(&self, k: &[u8]) -> (r: Result<(), Error>)
        requires
            self.wf(),
        ensures
            r == reveal_verdict(self@, k@),
    {
        if self.has_santa(k) {
            Ok(())
        } else {
            Err(Error::NotChosen)
        }
    }

    /// Folds a reveal by `k`, which only a chosen participant may make.
    pub fn record_reveal(&mut self, k: &[u8]) -> (r: Result<(), Error>)
        requires
            old(self).wf(),
        ensures
            final(self).wf(),
            r == reveal_verdict(old(self)@, k@),
            r is Ok ==> final(self)@ == reveal_spec(old(self)@, k@),
            r is Err ==> final(self)@ == old(self)@,
    {
        match self.find(k) {
            None => Err(Error::NotChosen),
            Some(i) => {
                if self.entries[i].chosen_by.is_none() {
                    return Err(Error::NotChosen);
                }
                let mut p = self.entries[i].copy();
                p.has_revealed = true;
                self.set_entry(i, p);
                Ok(())
            },
        }
    }

    /// The entered public keys that nobody has chosen yet, each once, in the
    /// order in which they entered. The caller's own key is not left out.
    pub fn available_choices(&self) -> (r: Vec<Vec<u8>>)
        requires
            self.wf(),
        ensures
            forall|i: int|
                0 <= i < r@.len() ==> #[trigger] entered(self@, r@[i]@) && self@[r@[i]@].chosen_by
                    is None,
            forall|k: Seq<u8>|
                entered(self@, k) && self@[k].chosen_by is None ==> exists|i: int|
                    0 <= i < r@.len() && #[trigger] r@[i]@ == k,
            forall|i: int, j: int|
                0 <= i < r@.len() && 0 <= j < r@.len() && i != j ==> #[trigger] r@[i]@
                    != #[trigger] r@[j]@,
    {
        let mut out: Vec<Vec<u8>> = Vec::new();
        let mut i: usize = 0;
        let ghost mut src: Seq<int> = Seq::empty();
        while i < self.entries.len()
            invariant
                self.wf(),
                i <= self.entries@.len(),
                src.len() == out@.len(),
                forall|a: int|
                    0 <= a < out@.len() ==> 0 <= #[trigger] src[a] < i && out@[a]@
                        == self.entries@[src[a]].public_key@,
                forall|a: int, b: int| 0 <= a < b < out@.len() ==> #[trigger] src[a] < #[trigger] src[b],
                forall|a: int|
                    0 <= a < out@.len() ==> #[trigger] entered(self@, out@[a]@)
                        && self@[out@[a]@].chosen_by is None,
                forall|j: int|
                    0 <= j < i && #[trigger] self.entries@[j].has_entered
                        && self.entries@[j].chosen_by is None ==> exists|a: int|
                        0 <= a < out@.len() && src[a] == j,
            decreases self.entries@.len() - i,
        {
            let e = &self.entries[i];
            let ghost old_out = out@;
            let ghost old_src = src;
            if e.has_entered && e.chosen_by.is_none() {
                proof {
                    src = src.push(i as int);
                }
                out.push(copy_bytes(e.public_key.as_slice()));
                proof {
                    let k = self.entries@[i as int].public_key@;
                    assert(self.model@.contains_key(k));
                    assert(out@[out@.len() - 1]@ == k);
                    assert(entered(self@, out@[out@.len() - 1]@));
                    assert forall|a: int| 0 <= a < old_out.len() implies out@[a] == old_out[a]
                        && src[a] == old_src[a] by {}
                }
            }
            proof {
                assert forall|j: int|
                    0 <= j < i + 1 && #[trigger] self.entries@[j].has_entered
                        && self.entries@[j].chosen_by is None implies exists|a: int|
                        0 <= a < out@.len() && src[a] == j by {
                    if j < i {
                        let a = choose|a: int| 0 <= a < old_out.len() && old_src[a] == j;
                        assert(src[a] == j);
                    } else {
                        assert(src[src.len() - 1] == j);
                    }
                }
            }
            i = i + 1;
        }
        proof {
            assert forall|k: Seq<u8>|
                entered(self@, k) && self@[k].chosen_by is None implies exists|a: int|
                    0 <= a < out@.len() && #[trigger] out@[a]@ == k by {
                let j = choose|j: int|
                    0 <= j < self.entries@.len() && #[trigger] self.entries@[j].public_key@ == k;
                assert(self.entries@[j].has_entered);
                let a = choose|a: int| 0 <= a < out@.len() && src[a] == j;
                assert(out@[a]@ == k);
            }
            assert forall|a: int, b: int|
                0 <= a < out@.len() && 0 <= b < out@.len() && a != b implies #[trigger] out@[a]@
                != #[trigger] out@[b]@ by {
                if a < b {
                    assert(src[a] < src[b]);
                } else {
                    assert(src[b] < src[a]);
                }
            }
        }
        out
    }

    /// Folds one event, returning the verdict on it.
    pub fn apply(&mut self, e: &RegistryEvent) -> (r: Result<(), Error>)
        requires
            old(self).wf(),
        ensures
            final(self).wf(),
            final(self)@ == step(old(self)@, e@),
            r == match e@ {
                EventView::Entered(_) => Ok(()),
                EventView::Chose(_, t) => target_verdict(old(self)@, t),
                EventView::Revealed(k) => reveal_verdict(old(self)@, k),
            },
    {
        match e {
            RegistryEvent::Entered { public_key } => {
                self.record_enter(public_key.as_slice());
                Ok(())
            },
            RegistryEvent::Chose { mark, chosen } => self.record_choice(
                mark.as_slice(),
                chosen.as_slice(),
            ),
            RegistryEvent::Revealed { public_key } => self.record_reveal(public_key.as_slice()),
        }
    }

    /// Rebuilds the registry from a history of events, in order. Refused
    /// events are skipped, so the first accepted choice of a target wins.
    pub fn replay(events: &Vec<RegistryEvent>) -> (r: Registry)
        ensures
            r.wf(),
            r@ == fold_events(Map::empty(), events@.map_values(|e: RegistryEvent| e@)),
    {
        let ghost views = events@.map_values(|e: RegistryEvent| e@);
        let mut reg = Registry::new();
        let mut i: usize = 0;
        while i < events.len()
            invariant
                i <= events@.len(),
                views == events@.map_values(|e: RegistryEvent| e@),
                reg.wf(),
                reg@ == fold_events(Map::empty(), views.subrange(0, i as int)),
            decreases events@.len() - i,
        {
            let _ = reg.apply(&events[i]);
            assert(views.subrange(0, i + 1).drop_last() =~= views.subrange(0, i as int));
            i = i + 1;
        }
        assert(views.subrange(0, events@.len() as int) =~= views);
        reg
    }

    /// The participant marked with `chooser`, the key-exchange public key
    /// that a chooser bound to their choice, if any.
    pub fn santee_of(&self, chooser: &[u8]) -> (r: Option<Vec<u8>>)
        requires
            self.wf(),
        ensures
            match r {
                Some(k) => self@.contains_key(k@) && self@[k@].chosen_by == Some(chooser@),
                None => forall|k: Seq<u8>|
                    #[trigger] self@.contains_key(k) ==> self@[k].chosen_by != Some(chooser@),
            },
    {
        let mut i: usize = 0;
        while i < self.entries.len()
            invariant
                self.wf(),
                i <= self.entries@.len(),
                forall|j: int|
                    0 <= j < i ==> #[trigger] option_bytes_view(self.entries@[j].chosen_by) != Some(
                        chooser@,
                    ),
            decreases self.entries@.len() - i,
        {
            let e = &self.entries[i];
            match &e.chosen_by {
                Some(c) => {
                    if bytes_eq(c.as_slice(), chooser) {
                        assert(self.model@.contains_key(self.entries@[i as int].public_key@));
                        return Some(copy_bytes(e.public_key.as_slice()));
                    }
                },
                None => {},
            }
            assert(option_bytes_view(self.entries@[i as int].chosen_by) != Some(chooser@));
            i = i + 1;
        }
        proof {
            assert forall|k: Seq<u8>| #[trigger] self@.contains_key(k) implies self@[k].chosen_by
                != Some(chooser@) by {
                let j = choose|j: int|
                    0 <= j < self.entries@.len() && #[trigger] self.entries@[j].public_key@ == k;
                assert(option_bytes_view(self.entries@[j].chosen_by) != Some(chooser@));
            }
        }
        None
    }
}

} // verus!
