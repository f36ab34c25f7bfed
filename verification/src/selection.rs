//! Choosing an engine for a file.
//!
//! Selection asks engines what they can do, never who they are. Engines are
//! known by their place in the registry, which is the user's order of
//! preference.

use vstd::prelude::*;

use crate::engine::{CapabilitiesView, EngineCapabilities, EngineError, EngineErrorView};
use crate::error::{CoreError, ErrorView};
use crate::text::{
    add_text, chars_of, is_space, lower, lowered, lemma_trimmed_is, reads, string_of, texts, trim,
    trimmed,
};

verus! {

/// Which engine plays a file.
#[derive(Debug, PartialEq, Eq)]
pub enum EnginePolicy {
    /// Use the first registered engine that can open the file.
    Auto,
    /// Always use this engine, by id. Reports the file as unsupported rather
    /// than quietly falling back, so an explicit choice stays explicit.
    Force(String),
}

/// A policy, with its id as a sequence of characters.
pub enum PolicyView {
    Auto,
    Force(Seq<char>),
}

impl View for EnginePolicy {
    type V = PolicyView;

    open spec fn view(&self) -> PolicyView {
        match *self {
            EnginePolicy::Auto => PolicyView::Auto,
            EnginePolicy::Force(id) => PolicyView::Force(id@),
        }
    }
}

impl Default for EnginePolicy {
    fn default() -> (r: Self)
        ensures
            r == EnginePolicy::Auto,
    {
        EnginePolicy::Auto
    }
}

impl Clone for EnginePolicy {
    fn clone(&self) -> (r: Self)
        ensures
            r == *self,
    {
        match self {
            EnginePolicy::Auto => EnginePolicy::Auto,
            EnginePolicy::Force(id) => EnginePolicy::Force(id.clone()),
        }
    }
}

/// The settings text of a policy.
pub open spec fn policy_text(policy: PolicyView) -> Seq<char> {
    match policy {
        PolicyView::Auto => "auto"@,
        PolicyView::Force(id) => id,
    }
}

/// The policy that a settings text names.
pub open spec fn policy_of(s: Seq<char>) -> PolicyView {
    let word = lowered(trimmed(s));
    if word.len() == 0 || word == "auto"@ {
        PolicyView::Auto
    } else {
        PolicyView::Force(word)
    }
}

impl EnginePolicy {
    /// The settings form.
    pub fn as_str(&self) -> (r: String)
        ensures
            r@ == policy_text(self@),
    {
        match self {
            EnginePolicy::Auto => "auto".to_owned(),
            EnginePolicy::Force(id) => id.clone(),
        }
    }

    /// Read the settings form. Anything that is not `auto` is an id.
    pub fn parse(s: &str) -> (r: Self)
        ensures
            r@ == policy_of(s@),
    {
        let chars = chars_of(s);
        let word = lower(trim(chars.as_slice()));
        if word.len() == 0 || reads(word.as_slice(), "auto") {
            EnginePolicy::Auto
        } else {
            EnginePolicy::Force(string_of(word.as_slice()))
        }
    }
}

/// A policy survives being written to settings and read back, as long as its id
/// is in the form that settings hold: lower case, no white space around it, and
/// not the word for choosing freely.
pub proof fn law_policy_round_trips(policy: PolicyView)
    requires
        policy matches PolicyView::Force(id) ==> id.len() > 0 && !is_space(id[0]) && !is_space(
            id.last(),
        ) && lowered(id) == id && id != "auto"@,
    ensures
        policy_of(policy_text(policy)) == policy,
{
    match policy {
        PolicyView::Auto => {
            reveal_strlit("auto");
            let s = "auto"@;
            lemma_trimmed_is(s);
            assert(lowered(s) =~= s);
        },
        PolicyView::Force(id) => {
            lemma_trimmed_is(id);
        },
    }
}

/// The engines available, in preference order.
pub struct EngineRegistry {
    engines: Vec<EngineCapabilities>,
    policy: EnginePolicy,
}

/// The engines available, in preference order, and the policy.
#[verifier::ext_equal]
pub struct RegistryView {
    pub engines: Seq<CapabilitiesView>,
    pub policy: PolicyView,
}

impl View for EngineRegistry {
    type V = RegistryView;

    closed spec fn view(&self) -> RegistryView {
        RegistryView {
            engines: Seq::new(self.engines@.len(), |i: int| self.engines@[i]@),
            policy: self.policy@,
        }
    }
}

/// What the choice of an engine came to.
pub enum Choice {
    Engine(int),
    Failed(ErrorView),
}

impl RegistryView {
    /// The first engine with an id.
    pub open spec fn found(self, id: Seq<char>, i: int) -> bool {
        &&& 0 <= i < self.engines.len()
        &&& self.engines[i].id == id
        &&& forall|k: int| 0 <= k < i ==> (#[trigger] self.engines[k]).id != id
    }

    pub open spec fn has(self, id: Seq<char>) -> bool {
        exists|i: int| 0 <= i < self.engines.len() && (#[trigger] self.engines[i]).id == id
    }

    /// The first engine that can open a path.
    pub open spec fn prefers(self, path: Seq<char>, i: int) -> bool {
        &&& 0 <= i < self.engines.len()
        &&& self.engines[i].plays(path)
        &&& forall|k: int| 0 <= k < i ==> !(#[trigger] self.engines[k]).plays(path)
    }

    pub open spec fn can_play(self, path: Seq<char>) -> bool {
        exists|i: int| 0 <= i < self.engines.len() && (#[trigger] self.engines[i]).plays(path)
    }

    /// The engine that should play a path, or why there is none.
    pub open spec fn chosen(self, path: Seq<char>) -> Choice {
        if self.engines.len() == 0 {
            Choice::Failed(
                ErrorView::Internal { message: "no playback engines are registered"@ },
            )
        } else {
            match self.policy {
                PolicyView::Auto => if self.can_play(path) {
                    Choice::Engine(choose|i: int| self.prefers(path, i))
                } else {
                    Choice::Failed(ErrorView::Engine(EngineErrorView::Unsupported { path }))
                },
                PolicyView::Force(id) => if !self.has(id) {
                    Choice::Failed(
                        ErrorView::Internal {
                            message: "no engine with id \""@ + id + "\" is available"@,
                        },
                    )
                } else {
                    let i = choose|i: int| self.found(id, i);
                    if self.engines[i].plays(path) {
                        Choice::Engine(i)
                    } else {
                        Choice::Failed(ErrorView::Engine(EngineErrorView::Unsupported { path }))
                    }
                },
            }
        }
    }

    pub open spec fn ids(self) -> Seq<Seq<char>> {
        Seq::new(self.engines.len(), |i: int| self.engines[i].id)
    }
}

/// The first engine with an id is one and the same.
pub proof fn lemma_found_unique(r: RegistryView, id: Seq<char>, i: int)
    requires
        r.found(id, i),
    ensures
        r.has(id),
        (choose|k: int| r.found(id, k)) == i,
{
    let k = choose|k: int| r.found(id, k);
    assert(r.engines[i].id == id);
    if k < i {
        assert(r.engines[k].id == id);
    }
}

/// The first engine that can open a path is one and the same.
proof fn lemma_prefers_unique(r: RegistryView, path: Seq<char>, i: int)
    requires
        r.prefers(path, i),
    ensures
        r.can_play(path),
        (choose|k: int| r.prefers(path, k)) == i,
{
    let k = choose|k: int| r.prefers(path, k);
    assert(r.engines[i].plays(path));
    if k < i {
        assert(r.engines[k].plays(path));
    }
}

impl EngineRegistry {
    pub fn new(engines: Vec<EngineCapabilities>) -> (r: Self)
        ensures
            r@.policy == PolicyView::Auto,
            r@.engines.len() == engines@.len(),
            forall|i: int| 0 <= i < engines@.len() ==> #[trigger] r@.engines[i] == engines@[i]@,
    {
        EngineRegistry { engines, policy: EnginePolicy::Auto }
    }

    pub fn with_policy(self, policy: EnginePolicy) -> (r: Self)
        ensures
            r@ == (RegistryView { policy: policy@, ..self@ }),
    {
        let mut registry = self;
        registry.policy = policy;
        registry
    }

    pub fn policy(&self) -> (r: &EnginePolicy)
        ensures
            r@ == self@.policy,
    {
        &self.policy
    }

    pub fn set_policy(&mut self, policy: EnginePolicy)
        ensures
            final(self)@ == (RegistryView { policy: policy@, ..old(self)@ }),
    {
        self.policy = policy;
    }

    /// How many engines there are.
    pub fn len(&self) -> (n: usize)
        ensures
            n == self@.engines.len(),
    {
        self.engines.len()
    }

    /// The ids of the engines, in preference order.
    pub fn ids(&self) -> (r: Vec<String>)
        ensures
            texts(r@) == self@.ids(),
    {
        let mut out: Vec<String> = Vec::new();
        let mut i: usize = 0;
        while i < self.engines.len()
            invariant
                i <= self.engines@.len(),
                texts(out@) == self@.ids().take(i as int),
            decreases self.engines@.len() - i,
        {
            let ghost before = out@;
            out.push(self.engines[i].id.clone());
            proof {
                assert(texts(out@) =~= texts(before).push(self.engines@[i as int].id@));
                assert(self@.ids().take(i as int + 1) =~= self@.ids().take(i as int).push(
                    self@.engines[i as int].id,
                ));
            }
            i = i + 1;
        }
        assert(self@.ids().take(i as int) =~= self@.ids());
        out
    }

    pub fn is_empty(&self) -> (r: bool)
        ensures
            r == (self@.engines.len() == 0),
    {
        self.engines.len() == 0
    }

    /// The place of the first engine with this id.
    pub fn by_id(&self, id: &str) -> (r: Option<usize>)
        ensures
            match r {
                Some(i) => self@.found(id@, i as int),
                None => !self@.has(id@),
            },
    {
        let needle = id.to_owned();
        let mut i: usize = 0;
        while i < self.engines.len()
            invariant
                i <= self.engines@.len(),
                needle@ == id@,
                forall|k: int| 0 <= k < i ==> (#[trigger] self@.engines[k]).id != id@,
            decreases self.engines@.len() - i,
        {
            assert(self@.engines[i as int].id == self.engines@[i as int].id@);
            if self.engines[i].id == needle {
                return Some(i);
            }
            i = i + 1;
        }
        None
    }

    fn first_playing(&self, path: &str) -> (r: Option<usize>)
        ensures
            match r {
                Some(i) => self@.prefers(path@, i as int),
                None => !self@.can_play(path@),
            },
    {
        let mut i: usize = 0;
        while i < self.engines.len()
            invariant
                i <= self.engines@.len(),
                forall|k: int| 0 <= k < i ==> !(#[trigger] self@.engines[k]).plays(path@),
            decreases self.engines@.len() - i,
        {
            assert(self@.engines[i as int] == self.engines@[i as int]@);
            if self.engines[i].handles_path(path) {
                return Some(i);
            }
            i = i + 1;
        }
        None
    }

    /// The engine that should play `path`.
    pub fn select_for(&self, path: &str) -> (r: Result<usize, CoreError>)
        ensures
            match r {
                Ok(i) => self@.chosen(path@) == Choice::Engine(i as int) && i
                    < self@.engines.len(),
                Err(e) => self@.chosen(path@) == Choice::Failed(e@),
            },
    {
        if self.engines.len() == 0 {
            return Err(
                CoreError::Internal { message: "no playback engines are registered".to_owned() },
            );
        }
        match &self.policy {
            EnginePolicy::Auto => match self.first_playing(path) {
                Some(i) => {
                    proof {
                        lemma_prefers_unique(self@, path@, i as int);
                    }
                    Ok(i)
                },
                None => Err(
                    CoreError::Engine(EngineError::Unsupported { path: path.to_owned() }),
                ),
            },
            EnginePolicy::Force(id) => match self.by_id(id.as_str()) {
                Some(i) => {
                    proof {
                        lemma_found_unique(self@, id@, i as int);
                        assert(self@.engines[i as int] == self.engines@[i as int]@);
                    }
                    if self.engines[i].handles_path(path) {
                        Ok(i)
                    } else {
                        Err(CoreError::Engine(EngineError::Unsupported { path: path.to_owned() }))
                    }
                },
                None => {
                    let mut out = chars_of("no engine with id \"");
                    add_text(&mut out, id.as_str());
                    add_text(&mut out, "\" is available");
                    Err(CoreError::Internal { message: string_of(out.as_slice()) })
                },
            },
        }
    }

    /// Every engine, for settings.
    pub fn all(&self) -> (r: &Vec<EngineCapabilities>)
        ensures
            r@.len() == self@.engines.len(),
            forall|i: int| 0 <= i < r@.len() ==> (#[trigger] r@[i])@ == self@.engines[i],
    {
        &self.engines
    }

    /// The id of one engine.
    pub fn id_of(&self, i: usize) -> (r: String)
        requires
            i < self@.engines.len(),
        ensures
            r@ == self@.engines[i as int].id,
    {
        self.engines[i].id.clone()
    }
}

impl Clone for EngineRegistry {
    fn clone(&self) -> (r: Self)
        ensures
            r@ == self@,
    {
        let mut engines: Vec<EngineCapabilities> = Vec::new();
        let mut i: usize = 0;
        while i < self.engines.len()
            invariant
                i <= self.engines@.len(),
                engines@.len() == i,
                forall|k: int| 0 <= k < i ==> (#[trigger] engines@[k])@ == self.engines@[k]@,
            decreases self.engines@.len() - i,
        {
            engines.push(self.engines[i].clone());
            i = i + 1;
        }
        let r = EngineRegistry { engines, policy: self.policy.clone() };
        assert(r@.engines =~= self@.engines);
        r
    }
}

/// Choosing freely takes the first engine that can open the file, and fails
/// only where none can.
pub proof fn law_auto_takes_the_first(r: RegistryView, path: Seq<char>, i: int)
    requires
        r.policy is Auto,
        r.prefers(path, i),
    ensures
        r.chosen(path) == Choice::Engine(i),
{
    lemma_prefers_unique(r, path, i);
}

/// A forced engine is the only one ever chosen: there is no falling back.
pub proof fn law_force_never_falls_back(r: RegistryView, path: Seq<char>, id: Seq<char>)
    requires
        r.policy == PolicyView::Force(id),
    ensures
        r.chosen(path) matches Choice::Engine(i) ==> r.engines[i].id == id
            && r.engines[i].plays(path),
{
    if r.engines.len() > 0 && r.has(id) {
        let w = choose|i: int|
            0 <= i < r.engines.len() && (#[trigger] r.engines[i]).id == id;
        lemma_first_with_id(r, id, w);
    }
}

/// Where some engine has an id, one of them is the first.
proof fn lemma_first_with_id(r: RegistryView, id: Seq<char>, w: int)
    requires
        0 <= w < r.engines.len(),
        r.engines[w].id == id,
    ensures
        exists|i: int| r.found(id, i),
    decreases w,
{
    if exists|k: int| 0 <= k < w && (#[trigger] r.engines[k]).id == id {
        let k = choose|k: int| 0 <= k < w && (#[trigger] r.engines[k]).id == id;
        lemma_first_with_id(r, id, k);
    } else {
        assert(r.found(id, w));
    }
}

} // verus!
