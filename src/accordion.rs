use vstd::prelude::*;

use crate::orientation::Orientation;
use crate::text::{eq_ignoring_ascii_case, find, matches_ignoring_ascii_case, views, UnknownValue};

verus! {

/// Whether one section of an accordion may be open at a time, or many.
#[derive(Debug, Clone, Copy, PartialEq, Eq, Structural)]
pub enum AccordianType {
    Single,
    Multiple,
}

impl Default for AccordianType {
    fn default() -> (r: Self)
        ensures
            r is Single,
    {
        AccordianType::Single
    }
}

impl AccordianType {
    pub fn is_single(&self) -> (r: bool)
        ensures
            r == (*self is Single),
    {
        matches!(self, AccordianType::Single)
    }

    pub fn is_multiple(&self) -> (r: bool)
        ensures
            r == (*self is Multiple),
    {
        matches!(self, AccordianType::Multiple)
    }

    /// Reads `"single"` or `"multiple"`, in any ASCII case.
    pub fn parse(s: &str) -> (r: Result<AccordianType, UnknownValue>)
        ensures
            eq_ignoring_ascii_case(s@, "single"@) ==> r == Ok::<AccordianType, UnknownValue>(
                AccordianType::Single,
            ),
            eq_ignoring_ascii_case(s@, "multiple"@) ==> r == Ok::<AccordianType, UnknownValue>(
                AccordianType::Multiple,
            ),
            r is Err <==> !eq_ignoring_ascii_case(s@, "single"@) && !eq_ignoring_ascii_case(
                s@,
                "multiple"@,
            ),
    {
        proof {
            reveal_strlit("single");
            reveal_strlit("multiple");
        }
        if matches_ignoring_ascii_case(s, "single") {
            Ok(AccordianType::Single)
        } else if matches_ignoring_ascii_case(s, "multiple") {
            Ok(AccordianType::Multiple)
        } else {
            Err(UnknownValue)
        }
    }
}

/// A key pressed on a section's trigger, as far as focus movement cares.
#[derive(Debug, Clone, Copy, PartialEq, Eq, Structural)]
pub enum NavKey {
    ArrowUp,
    ArrowDown,
    ArrowLeft,
    ArrowRight,
    Home,
    End,
    Other,
}

/// What the host should do with a key press on a trigger: whether to
/// suppress the key's default action, and which registered trigger, by
/// position, to focus.
#[derive(Debug, Clone, Copy, PartialEq, Eq)]
pub struct KeyResponse {
    pub prevent_default: bool,
    pub focus: Option<usize>,
}

/// The open set after activating section `v`.
pub open spec fn toggled(
    mode: AccordianType,
    collapsible: bool,
    open: Set<Seq<char>>,
    v: Seq<char>,
) -> Set<Seq<char>> {
    if open.contains(v) && (mode is Multiple || collapsible) {
        open.remove(v)
    } else if mode is Single {
        set![v]
    } else {
        open.insert(v)
    }
}

/// Whether key `nav` moves focus at all under `orientation`.
pub open spec fn nav_applies(orientation: Orientation, nav: NavKey) -> bool {
    match nav {
        NavKey::ArrowUp | NavKey::ArrowDown => orientation is Vertical,
        NavKey::ArrowLeft | NavKey::ArrowRight => orientation is Horizontal,
        NavKey::Home | NavKey::End => true,
        NavKey::Other => false,
    }
}

/// The position that key `nav` moves focus to from position `i` of `n`
/// triggers, if it moves it.
pub open spec fn nav_target(nav: NavKey, i: int, n: int) -> Option<int> {
    match nav {
        NavKey::ArrowUp | NavKey::ArrowLeft => if i > 0 {
            Some(i - 1)
        } else {
            None
        },
        NavKey::ArrowDown | NavKey::ArrowRight => if i < n - 1 {
            Some(i + 1)
        } else {
            None
        },
        NavKey::Home => if i != 0 {
            Some(0)
        } else {
            None
        },
        NavKey::End => if i != n - 1 {
            Some(n - 1)
        } else {
            None
        },
        NavKey::Other => None,
    }
}

/// The response to key `nav` on the trigger of section `key`, among the
/// registered `triggers`.
pub open spec fn key_response(
    orientation: Orientation,
    triggers: Seq<Seq<char>>,
    key: Seq<char>,
    nav: NavKey,
) -> KeyResponse {
    let applies = nav_applies(orientation, nav);
    let target = if applies && triggers.contains(key) {
        nav_target(nav, triggers.index_of(key), triggers.len() as int)
    } else {
        None
    };
    KeyResponse {
        prevent_default: applies,
        focus: match target {
            Some(j) => Some(j as usize),
            None => None,
        },
    }
}

/// In single mode, activating any section from a state with at most one open
/// section again leaves at most one open.
pub proof fn lemma_single_mode_exclusive(collapsible: bool, open: Set<Seq<char>>, v: Seq<char>)
    requires
        open.finite(),
        open.len() <= 1,
    ensures
        toggled(AccordianType::Single, collapsible, open, v).finite(),
        toggled(AccordianType::Single, collapsible, open, v).len() <= 1,
{
    if open.contains(v) && collapsible {
        assert(open.remove(v).len() == open.len() - 1);
    } else {
        assert(set![v].len() == 1) by {
            assert(set![v] =~= Set::<Seq<char>>::empty().insert(v));
        }
    }
}

/// The open set after activating the sections of `vs` in turn.
pub open spec fn toggled_all(
    mode: AccordianType,
    collapsible: bool,
    open: Set<Seq<char>>,
    vs: Seq<Seq<char>>,
) -> Set<Seq<char>>
    decreases vs.len(),
{
    if vs.len() == 0 {
        open
    } else {
        toggled(mode, collapsible, toggled_all(mode, collapsible, open, vs.drop_last()), vs.last())
    }
}

/// In single mode, after any sequence of activations, at most one section
/// is open.
pub proof fn lemma_single_mode_exclusive_always(
    collapsible: bool,
    open: Set<Seq<char>>,
    vs: Seq<Seq<char>>,
)
    requires
        open.finite(),
        open.len() <= 1,
    ensures
        toggled_all(AccordianType::Single, collapsible, open, vs).finite(),
        toggled_all(AccordianType::Single, collapsible, open, vs).len() <= 1,
    decreases vs.len(),
{
    if vs.len() > 0 {
        lemma_single_mode_exclusive_always(collapsible, open, vs.drop_last());
        lemma_single_mode_exclusive(
            collapsible,
            toggled_all(AccordianType::Single, collapsible, open, vs.drop_last()),
            vs.last(),
        );
    }
}

/// In multiple mode, activating section `v` never changes whether another
/// section `w` is open.
pub proof fn lemma_multiple_mode_independent(
    collapsible: bool,
    open: Set<Seq<char>>,
    v: Seq<char>,
    w: Seq<char>,
)
    requires
        v != w,
    ensures
        toggled(AccordianType::Multiple, collapsible, open, v).contains(w) == open.contains(w),
{
}

/// In single mode without collapsing, activating the one open section keeps
/// it open.
pub proof fn lemma_non_collapsible_floor(v: Seq<char>)
    ensures
        toggled(AccordianType::Single, false, set![v], v) == set![v],
{
}

/// In single mode with collapsing, activating the one open section closes
/// it.
pub proof fn lemma_collapsible_close(v: Seq<char>)
    ensures
        toggled(AccordianType::Single, true, set![v], v) == Set::<Seq<char>>::empty(),
{
    assert(set![v].remove(v) =~= Set::<Seq<char>>::empty());
}

/// In single mode, activating a closed section opens it in place of the one
/// that was open.
pub proof fn lemma_switch_replaces(collapsible: bool, a: Seq<char>, b: Seq<char>)
    requires
        a != b,
    ensures
        toggled(AccordianType::Single, collapsible, set![a], b) == set![b],
{
}

/// Focus stops at the ends: the previous key on the first trigger and the
/// next key on the last move nothing, while End on any other trigger moves
/// to the last.
pub proof fn lemma_focus_bounds(orientation: Orientation, triggers: Seq<Seq<char>>, i: int)
    requires
        triggers.no_duplicates(),
        0 <= i < triggers.len(),
    ensures
        key_response(
            orientation,
            triggers,
            triggers[0],
            if orientation is Vertical {
                NavKey::ArrowUp
            } else {
                NavKey::ArrowLeft
            },
        ).focus is None,
        key_response(
            orientation,
            triggers,
            triggers[triggers.len() - 1],
            if orientation is Vertical {
                NavKey::ArrowDown
            } else {
                NavKey::ArrowRight
            },
        ).focus is None,
        i != triggers.len() - 1 ==> key_response(orientation, triggers, triggers[i], NavKey::End).focus
            == Some((triggers.len() - 1) as usize),
        i != 0 ==> key_response(orientation, triggers, triggers[i], NavKey::Home).focus == Some(
            0usize,
        ),
{
    let n = triggers.len() as int;
    assert(triggers.contains(triggers[0]));
    assert(triggers.index_of(triggers[0]) == 0);
    assert(triggers.contains(triggers[n - 1]));
    assert(triggers.index_of(triggers[n - 1]) == n - 1);
    assert(triggers.contains(triggers[i]));
    assert(triggers.index_of(triggers[i]) == i);
}

/// The abstract state of an accordion: its fixed configuration, the set of
/// open sections, and the registered triggers in order of registration with
/// the focus handle of each.
pub ghost struct AccordionModel<H> {
    pub mode: AccordianType,
    pub collapsible: bool,
    pub orientation: Orientation,
    pub open: Set<Seq<char>>,
    pub triggers: Seq<Seq<char>>,
    pub handles: Seq<H>,
}

/// The state of an accordion: which sections are open, and the triggers that
/// keyboard focus moves between.
#[derive(Debug)]
pub struct AccordianState<H> {
    collapsible: bool,
    typ: AccordianType,
    orientation: Orientation,
    trigger_keys: Vec<String>,
    triggers: Vec<H>,
    current: Vec<String>,
}

impl<H> View for AccordianState<H> {
    type V = AccordionModel<H>;

    closed spec fn view(&self) -> AccordionModel<H> {
        AccordionModel {
            mode: self.typ,
            collapsible: self.collapsible,
            orientation: self.orientation,
            open: views(self.current@).to_set(),
            triggers: views(self.trigger_keys@),
            handles: self.triggers@,
        }
    }
}

proof fn lemma_views_remove(s: Seq<String>, i: int)
    requires
        0 <= i < s.len(),
        views(s).no_duplicates(),
    ensures
        views(s.remove(i)) == views(s).remove(i),
        views(s.remove(i)).no_duplicates(),
        views(s.remove(i)).to_set() == views(s).to_set().remove(s[i]@),
{
    assert(views(s.remove(i)) =~= views(s).remove(i));
    let v = views(s);
    let r = v.remove(i);
    assert forall|x: Seq<char>| r.contains(x) <==> v.to_set().remove(s[i]@).contains(x) by {
        if r.contains(x) {
            let k = choose|k: int| 0 <= k < r.len() && r[k] == x;
            if k < i {
                assert(v[k] == x);
                assert(v[k] != v[i]);
            } else {
                assert(v[k + 1] == x);
                assert(v[k + 1] != v[i]);
            }
            assert(v.contains(x));
            assert(x != s[i]@);
        }
        if views(s).to_set().remove(s[i]@).contains(x) {
            let k = choose|k: int| 0 <= k < views(s).len() && views(s)[k] == x;
            assert(k != i);
            if k < i {
                assert(r[k] == x);
            } else {
                assert(r[k - 1] == x);
            }
        }
    }
    assert(r.to_set() =~= views(s).to_set().remove(s[i]@));
}

proof fn lemma_views_push(s: Seq<String>, x: String)
    ensures
        views(s.push(x)) == views(s).push(x@),
        views(s.push(x)).to_set() == views(s).to_set().insert(x@),
        views(s).no_duplicates() && !views(s).contains(x@) ==> views(s.push(x)).no_duplicates(),
{
    assert(views(s.push(x)) =~= views(s).push(x@));
    let p = views(s).push(x@);
    assert forall|y: Seq<char>| p.contains(y) <==> views(s).to_set().insert(x@).contains(y) by {
        if p.contains(y) {
            let k = choose|k: int| 0 <= k < p.len() && p[k] == y;
            if k < views(s).len() {
                assert(views(s)[k] == y);
            }
        }
        if views(s).contains(y) {
            let k = choose|k: int| 0 <= k < views(s).len() && views(s)[k] == y;
            assert(p[k] == y);
        }
        if y == x@ {
            assert(p[views(s).len() as int] == y);
        }
    }
    assert(p.to_set() =~= views(s).to_set().insert(x@));
}

impl<H> AccordianState<H> {
    /// The state's invariant: open sections and registered triggers are each
    /// listed once, and a single-mode accordion has at most one open section.
    pub closed spec fn wf(&self) -> bool {
        &&& views(self.current@).no_duplicates()
        &&& (self.typ is Single ==> self.current@.len() <= 1)
        &&& views(self.trigger_keys@).no_duplicates()
        &&& self.trigger_keys@.len() == self.triggers@.len()
    }

    /// A well-formed state has a finite open set, of at most one section in
    /// single mode, and one handle per registered trigger, each trigger
    /// registered once.
    pub proof fn lemma_wf(&self)
        requires
            self.wf(),
        ensures
            self@.open.finite(),
            self@.mode is Single ==> self@.open.len() <= 1,
            self@.triggers.no_duplicates(),
            self@.triggers.len() == self@.handles.len(),
    {
        views(self.current@).unique_seq_to_set();
    }

    /// Builds the state of a new accordion. Absent options default to not
    /// collapsible and vertical. The sections of `default` start open; in
    /// single mode only the first of them.
    pub fn new(
        collapsible: Option<bool>,
        typ: AccordianType,
        orientation: Option<Orientation>,
        default: Option<Vec<String>>,
    ) -> (r: Self)
        ensures
            r.wf(),
            r@.mode == typ,
            r@.collapsible == (collapsible == Some(true)),
            r@.orientation == match orientation {
                Some(o) => o,
                None => Orientation::Vertical,
            },
            r@.open == match default {
                None => Set::<Seq<char>>::empty(),
                Some(d) => if typ is Multiple {
                    views(d@).to_set()
                } else if d.len() > 0 {
                    set![d@[0]@]
                } else {
                    Set::<Seq<char>>::empty()
                },
            },
            r@.triggers.len() == 0,
            r@.handles.len() == 0,
    {
        let mut current: Vec<String> = Vec::new();
        proof {
            assert(views(current@) =~= Seq::<Seq<char>>::empty());
            assert(views(current@).to_set() =~= Set::<Seq<char>>::empty());
        }
        match default {
            Some(d) => {
                let limit = if typ.is_multiple() {
                    d.len()
                } else if d.len() > 0 {
                    1
                } else {
                    0
                };
                let mut i: usize = 0;
                while i < limit
                    invariant
                        limit <= d.len(),
                        typ is Single ==> limit <= 1,
                        typ is Multiple ==> limit == d.len(),
                        0 <= i <= limit,
                        current@.len() <= i,
                        views(current@).no_duplicates(),
                        views(current@).to_set() == views(d@.take(i as int)).to_set(),
                    decreases limit - i,
                {
                    proof {
                        assert(d@.take(i + 1) =~= d@.take(i as int).push(d@[i as int]));
                        lemma_views_push(d@.take(i as int), d@[i as int]);
                    }
                    if find(&current, &d[i]).is_none() {
                        proof {
                            lemma_views_push(current@, d@[i as int]);
                        }
                        current.push(d[i].clone());
                    } else {
                        proof {
                            assert(views(current@).to_set() =~= views(current@).to_set().insert(
                                d@[i as int]@,
                            ));
                        }
                    }
                    i = i + 1;
                }
                proof {
                    if typ is Multiple {
                        assert(d@.take(limit as int) =~= d@);
                    } else if d.len() > 0 {
                        assert(views(d@.take(1)) =~= seq![d@[0]@]);
                        assert(views(d@.take(1)).to_set() =~= set![d@[0]@]) by {
                            assert(views(d@.take(1))[0] == d@[0]@);
                        }
                    } else {
                        assert(views(d@.take(0)).to_set() =~= Set::<Seq<char>>::empty());
                    }
                }
            },
            None => {},
        }
        let r = AccordianState {
            collapsible: match collapsible {
                Some(c) => c,
                None => false,
            },
            typ,
            orientation: match orientation {
                Some(o) => o,
                None => Orientation::Vertical,
            },
            trigger_keys: Vec::new(),
            triggers: Vec::new(),
            current,
        };
        proof {
            assert(views(r.trigger_keys@) =~= Seq::<Seq<char>>::empty());
        }
        r
    }

    pub fn collapsible(&self) -> (r: bool)
        ensures
            r == self@.collapsible,
    {
        self.collapsible
    }

    pub fn typ(&self) -> (r: AccordianType)
        ensures
            r == self@.mode,
    {
        self.typ
    }

    pub fn orientation(&self) -> (r: Orientation)
        ensures
            r == self@.orientation,
    {
        self.orientation
    }

    /// Activates section `value`: closes it where that is allowed, else
    /// opens it, closing the others in single mode.
    pub fn toggle(&mut self, value: &str)
        requires
            old(self).wf(),
        ensures
            final(self).wf(),
            final(self)@ == (AccordionModel {
                open: toggled(old(self)@.mode, old(self)@.collapsible, old(self)@.open, value@),
                ..old(self)@
            }),
    {
        let key = value.to_string();
        proof {
            vstd::string::to_string_from_display_ensures_for_str(value, key);
        }
        let removable = self.typ.is_multiple() || self.collapsible;
        let found = find(&self.current, &key);
        let ghost before = self.current@;
        match found {
            Some(i) if removable => {
                proof {
                    lemma_views_remove(before, i as int);
                }
                self.current.remove(i);
            },
            _ => {
                proof {
                    if found is Some {
                        let i = found->Some_0 as int;
                        assert(views(before)[i] == value@);
                    }
                }
                if self.typ.is_single() {
                    self.current.clear();
                    proof {
                        assert(views(self.current@) =~= Seq::<Seq<char>>::empty());
                        assert(views(self.current@).to_set() =~= Set::<Seq<char>>::empty());
                        lemma_views_push(self.current@, key);
                        assert(set![value@] =~= Set::<Seq<char>>::empty().insert(value@));
                    }
                    self.current.push(key);
                } else {
                    proof {
                        lemma_views_push(self.current@, key);
                    }
                    self.current.push(key);
                }
            },
        }
    }

    /// Whether section `value` is open.
    pub fn contains(&self, value: &str) -> (r: bool)
        ensures
            r == self@.open.contains(value@),
    {
        let key = value.to_string();
        proof {
            vstd::string::to_string_from_display_ensures_for_str(value, key);
        }
        find(&self.current, &key).is_some()
    }

    /// A copy of the open sections, each listed once, for an observer.
    pub fn open_values(&self) -> (r: Vec<String>)
        requires
            self.wf(),
        ensures
            views(r@).to_set() == self@.open,
            views(r@).no_duplicates(),
    {
        let mut r: Vec<String> = Vec::new();
        let mut i: usize = 0;
        while i < self.current.len()
            invariant
                0 <= i <= self.current@.len(),
                r@.len() == i,
                forall|j: int| 0 <= j < i ==> r@[j] == self.current@[j],
            decreases self.current@.len() - i,
        {
            r.push(self.current[i].clone());
            i = i + 1;
        }
        assert(r@ =~= self.current@);
        r
    }

    /// Registers the trigger of section `key` with its focus handle, unless
    /// that section has a trigger already: the first registration stays.
    pub fn add_item(&mut self, key: &str, handle: H)
        requires
            old(self).wf(),
        ensures
            final(self).wf(),
            old(self)@.triggers.contains(key@) ==> final(self)@ == old(self)@,
            !old(self)@.triggers.contains(key@) ==> final(self)@ == (AccordionModel {
                triggers: old(self)@.triggers.push(key@),
                handles: old(self)@.handles.push(handle),
                ..old(self)@
            }),
    {
        let k = key.to_string();
        proof {
            vstd::string::to_string_from_display_ensures_for_str(key, k);
        }
        if find(&self.trigger_keys, &k).is_none() {
            proof {
                lemma_views_push(self.trigger_keys@, k);
            }
            self.trigger_keys.push(k);
            self.triggers.push(handle);
        }
    }

    /// The number of registered triggers.
    pub fn trigger_count(&self) -> (r: usize)
        requires
            self.wf(),
        ensures
            r == self@.triggers.len(),
    {
        self.trigger_keys.len()
    }

    /// The focus handle of the trigger registered at position `i`.
    pub fn trigger(&self, i: usize) -> (r: &H)
        requires
            self.wf(),
            i < self@.handles.len(),
        ensures
            *r == self@.handles[i as int],
    {
        &self.triggers[i]
    }

    /// Decides what key `nav`, pressed on the trigger of section `key`, does:
    /// arrows along the orientation move to the neighbour, Home and End to
    /// the ends, and nothing moves past an end.
    pub fn handle_key(&self, key: &str, nav: NavKey) -> (r: KeyResponse)
        requires
            self.wf(),
        ensures
            r == key_response(self@.orientation, self@.triggers, key@, nav),
    {
        let k = key.to_string();
        proof {
            vstd::string::to_string_from_display_ensures_for_str(key, k);
        }
        let applies = match nav {
            NavKey::ArrowUp | NavKey::ArrowDown => self.orientation.is_vertical(),
            NavKey::ArrowLeft | NavKey::ArrowRight => self.orientation.is_horizontal(),
            NavKey::Home | NavKey::End => true,
            NavKey::Other => false,
        };
        if !applies {
            return KeyResponse { prevent_default: false, focus: None };
        }
        let found = find(&self.trigger_keys, &k);
        match found {
            None => KeyResponse { prevent_default: true, focus: None },
            Some(i) => {
                proof {
                    let t = views(self.trigger_keys@);
                    assert(t[i as int] == key@);
                    assert(t.contains(key@));
                    assert(t.index_of(key@) == i as int);
                }
                let n = self.trigger_keys.len();
                let focus = match nav {
                    NavKey::ArrowUp | NavKey::ArrowLeft => if i > 0 {
                        Some(i - 1)
                    } else {
                        None
                    },
                    NavKey::ArrowDown | NavKey::ArrowRight => if i < n - 1 {
                        Some(i + 1)
                    } else {
                        None
                    },
                    NavKey::Home => if i != 0 {
                        Some(0)
                    } else {
                        None
                    },
                    NavKey::End => if i != n - 1 {
                        Some(n - 1)
                    } else {
                        None
                    },
                    NavKey::Other => None,
                };
                KeyResponse { prevent_default: true, focus }
            },
        }
    }

    /// The `data-state` of section `value`.
    pub fn data_state(&self, value: &str) -> (r: &'static str)
        ensures
            r@ == if self@.open.contains(value@) {
                "open"@
            } else {
                "closed"@
            },
    {
        if self.contains(value) {
            "open"
        } else {
            "closed"
        }
    }

    /// Whether the trigger of section `value` is disabled: it is the open
    /// section of a single-mode accordion that may not close.
    pub fn trigger_disabled(&self, value: &str) -> (r: bool)
        ensures
            r == (self@.open.contains(value@) && !self@.collapsible && self@.mode is Single),
    {
        self.contains(value) && !self.collapsible && self.typ.is_single()
    }

    /// The `role` of a content panel: `"region"` in single mode only.
    pub fn content_role(&self) -> (r: Option<&'static str>)
        ensures
            self@.mode is Single ==> r is Some && r->Some_0@ == "region"@,
            self@.mode is Multiple ==> r is None,
    {
        if self.typ.is_single() {
            Some("region")
        } else {
            None
        }
    }
}

} // verus!
