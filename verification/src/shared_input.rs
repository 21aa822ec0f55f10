//! The inputs of a witness extension once every provider's statement has
//! been merged: public inputs and shared inputs, each under its name.

use crate::field::FieldElement;
use crate::input::columns_conflict;
use crate::input::fully_known;
use crate::input::known_values;
use crate::input::lemma_unions_disjoint;
use crate::input::maybe_public_conflict;
use crate::input::maybe_shared_conflict;
use crate::input::maybe_shares_conflict;
use crate::input::merge_columns;
use crate::input::merge_maybe_shares;
use crate::input::merged_column;
use crate::input::merged_maybe_shares;
use crate::input::move_entries;
use crate::input::public_inputs_mismatch;
use crate::input::public_mismatch;
use crate::input::resolve_column;
use crate::input::InputView;
use crate::input::MergeError;
use crate::input::SerializeableSharedRep3Input;
use crate::names::NamedMap;
use crate::rep3::copy_vec;
use crate::rep3::MaybeRep3ShareVecType;
use crate::rep3::MaybeShareVecView;
use crate::rep3::Rep3PrimeFieldShare;
use crate::rep3::Rep3ShareVecType;
use crate::rep3::ShareVecView;
use vstd::prelude::*;

verus! {

/// The merged inputs of a witness extension.
#[derive(Debug)]
pub struct SharedInput<S> {
    /// The public inputs, each under its name.
    pub public_inputs: NamedMap<Vec<FieldElement>>,
    /// This party's shares of the shared inputs, each under its name.
    pub shared_inputs: NamedMap<Vec<S>>,
}

/// The two maps of a [`SharedInput`].
pub struct SharedInputView<S> {
    pub public: Map<Seq<char>, Seq<FieldElement>>,
    pub shared: Map<Seq<char>, Seq<S>>,
}

impl<S> View for SharedInput<S> {
    type V = SharedInputView<S>;

    open spec fn view(&self) -> SharedInputView<S> {
        SharedInputView { public: self.public_inputs@, shared: self.shared_inputs@ }
    }
}

/// The reason for which two merged inputs cannot be merged further, if there
/// is one. Of several reasons the first in this order is given.
pub open spec fn shared_merge_error<S>(a: SharedInputView<S>, b: SharedInputView<S>) -> Option<
    MergeError,
> {
    if !a.shared.dom().disjoint(b.shared.dom()) {
        Some(MergeError::SharedInputDuplicate)
    } else if !(a.shared.dom() + b.shared.dom()).disjoint(a.public.dom() + b.public.dom()) {
        Some(MergeError::SharedAndPublic)
    } else if !b.public.dom().subset_of(a.public.dom()) {
        Some(MergeError::PublicInputMissing)
    } else if public_mismatch(a.public, b.public) {
        Some(MergeError::PublicInputMismatch)
    } else {
        None
    }
}

/// Copies every entry of `from` into `into`.
pub fn extend_columns<T: Copy>(into: &mut NamedMap<Vec<T>>, from: &NamedMap<Vec<T>>)
    ensures
        final(into)@ == old(into)@.union_prefer_right(from@),
{
    let n = from.len();
    let mut i: usize = 0;
    proof {
        from.lemma_prefix_ends();
        assert(into@.union_prefer_right(from.prefix(0)) =~= into@);
    }
    while i < n
        invariant
            i <= n,
            n == from.names().len(),
            from.wf(),
            into@ == old(into)@.union_prefer_right(from.prefix(i as int)),
        decreases n - i,
    {
        proof {
            from.lemma_prefix_step(i as int);
        }
        let name = from.name_at(i).clone();
        let column = copy_vec(from.value_at(i));
        into.insert(name, column);
        assert(into@ =~= old(into)@.union_prefer_right(from.prefix(i + 1)));
        i += 1;
    }
    proof {
        from.lemma_prefix_ends();
    }
}

impl<S> SharedInput<S> {
    /// Inputs without any entry.
    pub fn new() -> (r: Self)
        ensures
            r@.public == Map::<Seq<char>, Seq<FieldElement>>::empty(),
            r@.shared == Map::<Seq<char>, Seq<S>>::empty(),
    {
        SharedInput { public_inputs: NamedMap::new(), shared_inputs: NamedMap::new() }
    }

    /// States the public input `key`, in place of an earlier statement of it.
    pub fn add_public_input(&mut self, key: String, elements: Vec<FieldElement>)
        ensures
            final(self)@.public == old(self)@.public.insert(key@, elements@),
            final(self)@.shared == old(self)@.shared,
    {
        self.public_inputs.insert(key, elements);
    }

    /// States the shared input `key`, in place of an earlier statement of it.
    pub fn add_shared_input(&mut self, key: String, elements: Vec<S>)
        ensures
            final(self)@.shared == old(self)@.shared.insert(key@, elements@),
            final(self)@.public == old(self)@.public,
    {
        self.shared_inputs.insert(key, elements);
    }

    /// Merges the inputs of two providers: the shared inputs of both, which
    /// must differ in their names, under the public inputs of the first,
    /// which the second must agree with.
    pub fn merge(self, other: Self) -> (r: Result<Self, MergeError>)
        ensures
            match r {
                Ok(merged) => shared_merge_error(self@, other@) is None && merged@.public
                    == self@.public && merged@.shared == self@.shared.union_prefer_right(
                    other@.shared,
                ),
                Err(e) => shared_merge_error(self@, other@) == Some(e),
            },
    {
        if other.shared_inputs.shares_key_with(&self.shared_inputs) {
            return Err(MergeError::SharedInputDuplicate);
        }
        proof {
            lemma_unions_disjoint(
                self@.shared.dom(),
                other@.shared.dom(),
                self@.public.dom(),
                other@.public.dom(),
            );
        }
        if self.shared_inputs.shares_key_with(&self.public_inputs)
            || self.shared_inputs.shares_key_with(&other.public_inputs)
            || other.shared_inputs.shares_key_with(&self.public_inputs)
            || other.shared_inputs.shares_key_with(&other.public_inputs) {
            return Err(MergeError::SharedAndPublic);
        }
        if other.public_inputs.has_key_outside(&self.public_inputs) {
            return Err(MergeError::PublicInputMissing);
        }
        if public_inputs_mismatch(&self.public_inputs, &other.public_inputs) {
            return Err(MergeError::PublicInputMismatch);
        }
        let mut shared_inputs = self.shared_inputs;
        move_entries(&mut shared_inputs, other.shared_inputs);
        Ok(SharedInput { public_inputs: self.public_inputs, shared_inputs })
    }
}

impl<S> Default for SharedInput<S> {
    fn default() -> (r: Self)
        ensures
            r@.public == Map::<Seq<char>, Seq<FieldElement>>::empty(),
            r@.shared == Map::<Seq<char>, Seq<S>>::empty(),
    {
        SharedInput::new()
    }
}

impl<S: Copy> Clone for SharedInput<S> {
    fn clone(&self) -> (r: Self)
        ensures
            r@ == self@,
    {
        let mut public_inputs: NamedMap<Vec<FieldElement>> = NamedMap::new();
        extend_columns(&mut public_inputs, &self.public_inputs);
        let mut shared_inputs: NamedMap<Vec<S>> = NamedMap::new();
        extend_columns(&mut shared_inputs, &self.shared_inputs);
        assert(public_inputs@ =~= self.public_inputs@);
        assert(shared_inputs@ =~= self.shared_inputs@);
        SharedInput { public_inputs, shared_inputs }
    }
}

/// What has been gathered from the sources merged so far: public and shared
/// inputs, and partly known ones whose columns later sources may complete.
pub struct Staged {
    pub public: Map<Seq<char>, Seq<FieldElement>>,
    pub shared: Map<Seq<char>, Seq<Rep3PrimeFieldShare>>,
    pub maybe_public: Map<Seq<char>, Seq<Option<FieldElement>>>,
    pub maybe_shared: Map<Seq<char>, MaybeShareVecView>,
}

/// Some shared input is not shared in replicated form.
pub open spec fn has_unsupported_share(m: Map<Seq<char>, ShareVecView>) -> bool {
    exists|k: Seq<char>| m.contains_key(k) && !(m[k] is Replicated)
}

/// Some partly known public input has columns of different lengths in the
/// two maps.
pub open spec fn lengths_differ(
    a: Map<Seq<char>, Seq<Option<FieldElement>>>,
    b: Map<Seq<char>, Seq<Option<FieldElement>>>,
) -> bool {
    exists|k: Seq<char>| a.contains_key(k) && b.contains_key(k) && a[k].len() != b[k].len()
}

/// Some partly known shared input is in both maps, and not in replicated
/// form in both.
pub open spec fn has_unsupported_pair(
    a: Map<Seq<char>, MaybeShareVecView>,
    b: Map<Seq<char>, MaybeShareVecView>,
) -> bool {
    exists|k: Seq<char>|
        a.contains_key(k) && b.contains_key(k) && !(a[k] is Replicated && b[k] is Replicated)
}

/// Some partly known public input has an index that is not known.
pub open spec fn has_unknown_value(m: Map<Seq<char>, Seq<Option<FieldElement>>>) -> bool {
    exists|k: Seq<char>| m.contains_key(k) && !fully_known(m[k])
}

/// Some partly known shared input is in additive form.
pub open spec fn has_additive(m: Map<Seq<char>, MaybeShareVecView>) -> bool {
    exists|k: Seq<char>| m.contains_key(k) && !(m[k] is Replicated)
}

/// Some partly known shared input in replicated form has an index that is
/// not known.
pub open spec fn has_unknown_share(m: Map<Seq<char>, MaybeShareVecView>) -> bool {
    exists|k: Seq<char>|
        m.contains_key(k) && m[k] is Replicated && !fully_known(m[k]->Replicated_0)
}

/// The replicated shares of a map of shared inputs in replicated form.
pub open spec fn replicated_columns(m: Map<Seq<char>, ShareVecView>) -> Map<
    Seq<char>,
    Seq<Rep3PrimeFieldShare>,
> {
    Map::new(|k: Seq<char>| m.contains_key(k), |k: Seq<char>| m[k]->Replicated_0)
}

/// The columns of both maps, those under one name merged index by index.
pub open spec fn staged_columns(
    a: Map<Seq<char>, Seq<Option<FieldElement>>>,
    b: Map<Seq<char>, Seq<Option<FieldElement>>>,
) -> Map<Seq<char>, Seq<Option<FieldElement>>> {
    Map::new(
        |k: Seq<char>| a.contains_key(k) || b.contains_key(k),
        |k: Seq<char>|
            if a.contains_key(k) && b.contains_key(k) {
                merged_column(a[k], b[k])
            } else if a.contains_key(k) {
                a[k]
            } else {
                b[k]
            },
    )
}

/// The partly known shares of both maps, those under one name merged index
/// by index.
pub open spec fn staged_shares(
    a: Map<Seq<char>, MaybeShareVecView>,
    b: Map<Seq<char>, MaybeShareVecView>,
) -> Map<Seq<char>, MaybeShareVecView> {
    Map::new(
        |k: Seq<char>| a.contains_key(k) || b.contains_key(k),
        |k: Seq<char>|
            if a.contains_key(k) && b.contains_key(k) {
                merged_maybe_shares(a[k], b[k])
            } else if a.contains_key(k) {
                a[k]
            } else {
                b[k]
            },
    )
}

/// The known values of a map of fully known columns.
pub open spec fn resolved_columns<T>(m: Map<Seq<char>, Seq<Option<T>>>) -> Map<Seq<char>, Seq<T>> {
    Map::new(|k: Seq<char>| m.contains_key(k), |k: Seq<char>| known_values(m[k]))
}

/// The known shares of a map of fully known shares in replicated form.
pub open spec fn resolved_shares(m: Map<Seq<char>, MaybeShareVecView>) -> Map<
    Seq<char>,
    Seq<Rep3PrimeFieldShare>,
> {
    Map::new(|k: Seq<char>| m.contains_key(k), |k: Seq<char>| known_values(m[k]->Replicated_0))
}

impl Staged {
    /// Nothing gathered yet.
    pub open spec fn empty() -> Staged {
        Staged {
            public: Map::empty(),
            shared: Map::empty(),
            maybe_public: Map::empty(),
            maybe_shared: Map::empty(),
        }
    }

    /// The reason for which one more source cannot be taken in, if there is
    /// one. Of several reasons the first in this order is given.
    pub open spec fn absorb_error(self, source: InputView) -> Option<MergeError> {
        if public_mismatch(self.public, source.public) {
            Some(MergeError::PublicInputMismatch)
        } else if has_unsupported_share(source.shared) {
            Some(MergeError::UnsupportedCombination)
        } else if !source.shared.dom().disjoint(self.shared.dom()) {
            Some(MergeError::SharedInputDuplicate)
        } else if lengths_differ(self.maybe_public, source.maybe_public) {
            Some(MergeError::LengthMismatch)
        } else if maybe_public_conflict(self.maybe_public, source.maybe_public) {
            Some(MergeError::MaybePublicConflict)
        } else if has_unsupported_pair(self.maybe_shared, source.maybe_shared) {
            Some(MergeError::UnsupportedCombination)
        } else if maybe_shared_conflict(self.maybe_shared, source.maybe_shared) {
            Some(MergeError::MaybeSharedConflict)
        } else {
            None
        }
    }

    /// What is gathered once one more source has been taken in.
    pub open spec fn absorb(self, source: InputView) -> Staged {
        Staged {
            public: self.public.union_prefer_right(source.public),
            shared: self.shared.union_prefer_right(replicated_columns(source.shared)),
            maybe_public: staged_columns(self.maybe_public, source.maybe_public),
            maybe_shared: staged_shares(self.maybe_shared, source.maybe_shared),
        }
    }

    /// What is gathered once the sources from index `i` on have been taken
    /// in, one after the other, or the reason for which the first of them
    /// that cannot be taken in is refused.
    pub open spec fn absorb_all(self, sources: Seq<InputView>, i: int) -> Result<
        Staged,
        MergeError,
    >
        decreases sources.len() - i,
    {
        if i < 0 || i >= sources.len() {
            Ok(self)
        } else {
            match self.absorb_error(sources[i]) {
                Some(e) => Err(e),
                None => self.absorb(sources[i]).absorb_all(sources, i + 1),
            }
        }
    }

    /// The reason for which what was gathered does not make complete
    /// inputs, if there is one. Of several reasons the first in this order
    /// is given.
    pub open spec fn resolve_error(self) -> Option<MergeError> {
        if !self.maybe_public.dom().disjoint(self.public.dom()) {
            Some(MergeError::PublicAndMaybePublic)
        } else if has_unknown_value(self.maybe_public) {
            Some(MergeError::StillUnmerged)
        } else if !self.maybe_shared.dom().disjoint(self.shared.dom()) {
            Some(MergeError::SharedAndMaybeShared)
        } else if has_additive(self.maybe_shared) {
            Some(MergeError::UnsupportedCombination)
        } else if has_unknown_share(self.maybe_shared) {
            Some(MergeError::StillUnmerged)
        } else if !(self.shared.dom() + self.maybe_shared.dom()).disjoint(
            self.public.dom() + self.maybe_public.dom(),
        ) {
            Some(MergeError::SharedAndPublic)
        } else {
            None
        }
    }

    /// The complete inputs that what was gathered makes: every partly known
    /// input, now known at every index, stands with the others under its
    /// name.
    pub open spec fn resolve(self) -> SharedInputView<Rep3PrimeFieldShare> {
        SharedInputView {
            public: self.public.union_prefer_right(resolved_columns(self.maybe_public)),
            shared: self.shared.union_prefer_right(resolved_shares(self.maybe_shared)),
        }
    }
}

/// What the sources state, one view for each.
pub open spec fn source_views(sources: Seq<SerializeableSharedRep3Input>) -> Seq<InputView> {
    Seq::new(sources.len(), |i: int| sources[i]@)
}

/// What building complete inputs from the sources gives.
pub open spec fn build_result(sources: Seq<InputView>) -> Result<
    SharedInputView<Rep3PrimeFieldShare>,
    MergeError,
> {
    match Staged::empty().absorb_all(sources, 0) {
        Err(e) => Err(e),
        Ok(staged) => match staged.resolve_error() {
            Some(e) => Err(e),
            None => Ok(staged.resolve()),
        },
    }
}

/// In complete inputs no name stands for both a public and a shared input.
pub proof fn lemma_built_inputs_keep_names_apart(sources: Seq<InputView>)
    requires
        build_result(sources) is Ok,
    ensures
        build_result(sources)->Ok_0.public.dom().disjoint(build_result(sources)->Ok_0.shared.dom()),
{
    let staged = Staged::empty().absorb_all(sources, 0)->Ok_0;
    let built = staged.resolve();
    lemma_unions_disjoint(
        staged.shared.dom(),
        staged.maybe_shared.dom(),
        staged.public.dom(),
        staged.maybe_public.dom(),
    );
    assert(built.public.dom() =~= staged.public.dom() + staged.maybe_public.dom());
    assert(built.shared.dom() =~= staged.shared.dom() + staged.maybe_shared.dom());
    assert forall|k: Seq<char>| built.public.dom().contains(k) implies !built.shared.dom().contains(
        k,
    ) by {
        if built.shared.dom().contains(k) {
            assert((staged.shared.dom() + staged.maybe_shared.dom()).contains(k));
            assert((staged.public.dom() + staged.maybe_public.dom()).contains(k));
        }
    }
}

/// Whether some shared input is not shared in replicated form.
fn any_unsupported_share(m: &NamedMap<Rep3ShareVecType>) -> (r: bool)
    ensures
        r == has_unsupported_share(m@),
{
    let n = m.len();
    let mut i: usize = 0;
    proof {
        m.lemma_prefix_ends();
    }
    while i < n
        invariant
            i <= n,
            n == m.names().len(),
            m.wf(),
            !has_unsupported_share(m.prefix(i as int)),
        decreases n - i,
    {
        proof {
            m.lemma_prefix_step(i as int);
        }
        match m.value_at(i) {
            Rep3ShareVecType::Replicated(_) => {},
            _ => {
                return true;
            },
        }
        i += 1;
    }
    proof {
        m.lemma_prefix_ends();
    }
    false
}

/// Whether some partly known public input has columns of different lengths
/// in the two maps.
fn any_lengths_differ(
    a: &NamedMap<Vec<Option<FieldElement>>>,
    b: &NamedMap<Vec<Option<FieldElement>>>,
) -> (r: bool)
    ensures
        r == lengths_differ(a@, b@),
{
    let n = b.len();
    let mut i: usize = 0;
    proof {
        b.lemma_prefix_ends();
    }
    while i < n
        invariant
            i <= n,
            n == b.names().len(),
            b.wf(),
            !lengths_differ(a@, b.prefix(i as int)),
        decreases n - i,
    {
        proof {
            b.lemma_prefix_step(i as int);
        }
        let theirs = b.value_at(i);
        match a.get(b.name_at(i).as_str()) {
            Some(mine) => {
                if mine.len() != theirs.len() {
                    return true;
                }
            },
            None => {},
        }
        i += 1;
    }
    proof {
        b.lemma_prefix_ends();
    }
    false
}

/// Whether both columns state a value at some index.
fn columns_clash<T: Copy>(mine: &Vec<Option<T>>, theirs: &Vec<Option<T>>) -> (r: bool)
    ensures
        r == columns_conflict(mine@, theirs@),
{
    let mut i: usize = 0;
    while i < mine.len() && i < theirs.len()
        invariant
            i <= mine.len(),
            i <= theirs.len(),
            forall|j: int| 0 <= j < i ==> !(mine[j] is Some && theirs[j] is Some),
        decreases mine.len() - i,
    {
        if mine[i].is_some() && theirs[i].is_some() {
            return true;
        }
        i += 1;
    }
    false
}

/// Whether some partly known public input has a value from both maps at an
/// index.
fn any_maybe_public_conflict(
    a: &NamedMap<Vec<Option<FieldElement>>>,
    b: &NamedMap<Vec<Option<FieldElement>>>,
) -> (r: bool)
    ensures
        r == maybe_public_conflict(a@, b@),
{
    let n = b.len();
    let mut i: usize = 0;
    proof {
        b.lemma_prefix_ends();
    }
    while i < n
        invariant
            i <= n,
            n == b.names().len(),
            b.wf(),
            !maybe_public_conflict(a@, b.prefix(i as int)),
        decreases n - i,
    {
        proof {
            b.lemma_prefix_step(i as int);
        }
        let theirs = b.value_at(i);
        match a.get(b.name_at(i).as_str()) {
            Some(mine) => {
                if columns_clash(mine, theirs) {
                    return true;
                }
            },
            None => {},
        }
        i += 1;
    }
    proof {
        b.lemma_prefix_ends();
    }
    false
}

/// Whether some partly known shared input is in both maps, and not in
/// replicated form in both.
fn any_unsupported_pair(
    a: &NamedMap<MaybeRep3ShareVecType>,
    b: &NamedMap<MaybeRep3ShareVecType>,
) -> (r: bool)
    ensures
        r == has_unsupported_pair(a@, b@),
{
    let n = b.len();
    let mut i: usize = 0;
    proof {
        b.lemma_prefix_ends();
    }
    while i < n
        invariant
            i <= n,
            n == b.names().len(),
            b.wf(),
            !has_unsupported_pair(a@, b.prefix(i as int)),
        decreases n - i,
    {
        proof {
            b.lemma_prefix_step(i as int);
        }
        let theirs = b.value_at(i);
        match a.get(b.name_at(i).as_str()) {
            Some(mine) => {
                match (mine, theirs) {
                    (
                        MaybeRep3ShareVecType::Replicated(_),
                        MaybeRep3ShareVecType::Replicated(_),
                    ) => {},
                    _ => {
                        return true;
                    },
                }
            },
            None => {},
        }
        i += 1;
    }
    proof {
        b.lemma_prefix_ends();
    }
    false
}

/// Whether some partly known shared input has a share from both maps at an
/// index.
fn any_maybe_shared_conflict(
    a: &NamedMap<MaybeRep3ShareVecType>,
    b: &NamedMap<MaybeRep3ShareVecType>,
) -> (r: bool)
    ensures
        r == maybe_shared_conflict(a@, b@),
{
    let n = b.len();
    let mut i: usize = 0;
    proof {
        b.lemma_prefix_ends();
    }
    while i < n
        invariant
            i <= n,
            n == b.names().len(),
            b.wf(),
            !maybe_shared_conflict(a@, b.prefix(i as int)),
        decreases n - i,
    {
        proof {
            b.lemma_prefix_step(i as int);
        }
        let theirs = b.value_at(i);
        match a.get(b.name_at(i).as_str()) {
            Some(mine) => {
                let clash = match (mine, theirs) {
                    (
                        MaybeRep3ShareVecType::Replicated(x),
                        MaybeRep3ShareVecType::Replicated(y),
                    ) => columns_clash(x, y),
                    (
                        MaybeRep3ShareVecType::Additive(x),
                        MaybeRep3ShareVecType::Additive(y),
                    ) => columns_clash(x, y),
                    _ => false,
                };
                if clash {
                    assert(maybe_shares_conflict(mine@, theirs@));
                    return true;
                }
                assert(!maybe_shares_conflict(mine@, theirs@));
            },
            None => {},
        }
        i += 1;
    }
    proof {
        b.lemma_prefix_ends();
    }
    false
}

/// Copies the replicated shares of every entry of `from` into `into`.
fn extend_replicated(into: &mut NamedMap<Vec<Rep3PrimeFieldShare>>, from: &NamedMap<Rep3ShareVecType>)
    requires
        !has_unsupported_share(from@),
    ensures
        final(into)@ == old(into)@.union_prefer_right(replicated_columns(from@)),
{
    let n = from.len();
    let mut i: usize = 0;
    proof {
        from.lemma_prefix_ends();
        assert(into@.union_prefer_right(replicated_columns(from.prefix(0))) =~= into@);
    }
    while i < n
        invariant
            i <= n,
            n == from.names().len(),
            from.wf(),
            !has_unsupported_share(from@),
            into@ == old(into)@.union_prefer_right(replicated_columns(from.prefix(i as int))),
        decreases n - i,
    {
        proof {
            from.lemma_prefix_step(i as int);
        }
        let name = from.name_at(i).clone();
        match from.value_at(i) {
            Rep3ShareVecType::Replicated(shares) => {
                let column = copy_vec(shares);
                into.insert(name, column);
            },
            _ => {
                assert(false);
            },
        }
        assert(into@ =~= old(into)@.union_prefer_right(
            replicated_columns(from.prefix(i + 1)),
        ));
        i += 1;
    }
    proof {
        from.lemma_prefix_ends();
    }
}

/// Takes the columns of `from` in: merged into the column that `into` has
/// under the same name, or as they are.
fn stage_columns(
    into: &mut NamedMap<Vec<Option<FieldElement>>>,
    from: &NamedMap<Vec<Option<FieldElement>>>,
)
    requires
        !maybe_public_conflict(old(into)@, from@),
    ensures
        final(into)@ == staged_columns(old(into)@, from@),
{
    let n = from.len();
    let mut i: usize = 0;
    proof {
        from.lemma_prefix_ends();
        assert(into@ =~= staged_columns(into@, from.prefix(0)));
    }
    while i < n
        invariant
            i <= n,
            n == from.names().len(),
            from.wf(),
            !maybe_public_conflict(old(into)@, from@),
            into@ == staged_columns(old(into)@, from.prefix(i as int)),
        decreases n - i,
    {
        proof {
            from.lemma_prefix_step(i as int);
        }
        let name = from.name_at(i).clone();
        let theirs = from.value_at(i);
        let column = match into.get(name.as_str()) {
            Some(mine) => {
                match merge_columns(mine, theirs) {
                    Some(merged) => merged,
                    None => {
                        assert(false);
                        copy_vec(theirs)
                    },
                }
            },
            None => copy_vec(theirs),
        };
        into.insert(name, column);
        assert(into@ =~= staged_columns(old(into)@, from.prefix(i + 1)));
        i += 1;
    }
    proof {
        from.lemma_prefix_ends();
    }
}

/// A copy of a partly known share.
fn copy_maybe_shares(shares: &MaybeRep3ShareVecType) -> (r: MaybeRep3ShareVecType)
    ensures
        r@ == shares@,
{
    match shares {
        MaybeRep3ShareVecType::Replicated(x) => MaybeRep3ShareVecType::Replicated(copy_vec(x)),
        MaybeRep3ShareVecType::Additive(x) => MaybeRep3ShareVecType::Additive(copy_vec(x)),
    }
}

/// Takes the partly known shares of `from` in: merged into the shares that
/// `into` has under the same name, or as they are.
fn stage_shares(into: &mut NamedMap<MaybeRep3ShareVecType>, from: &NamedMap<MaybeRep3ShareVecType>)
    requires
        !has_unsupported_pair(old(into)@, from@),
        !maybe_shared_conflict(old(into)@, from@),
    ensures
        final(into)@ == staged_shares(old(into)@, from@),
{
    let n = from.len();
    let mut i: usize = 0;
    proof {
        from.lemma_prefix_ends();
        assert(into@ =~= staged_shares(into@, from.prefix(0)));
    }
    while i < n
        invariant
            i <= n,
            n == from.names().len(),
            from.wf(),
            !has_unsupported_pair(old(into)@, from@),
            !maybe_shared_conflict(old(into)@, from@),
            into@ == staged_shares(old(into)@, from.prefix(i as int)),
        decreases n - i,
    {
        proof {
            from.lemma_prefix_step(i as int);
        }
        let name = from.name_at(i).clone();
        let theirs = from.value_at(i);
        let shares = match into.get(name.as_str()) {
            Some(mine) => {
                match merge_maybe_shares(mine, theirs) {
                    Ok(merged) => merged,
                    Err(_) => {
                        assert(false);
                        copy_maybe_shares(theirs)
                    },
                }
            },
            None => copy_maybe_shares(theirs),
        };
        into.insert(name, shares);
        assert(into@ =~= staged_shares(old(into)@, from.prefix(i + 1)));
        i += 1;
    }
    proof {
        from.lemma_prefix_ends();
    }
}

/// Whether some partly known public input has an index that is not known.
fn any_unknown_value(m: &NamedMap<Vec<Option<FieldElement>>>) -> (r: bool)
    ensures
        r == has_unknown_value(m@),
{
    let n = m.len();
    let mut i: usize = 0;
    proof {
        m.lemma_prefix_ends();
    }
    while i < n
        invariant
            i <= n,
            n == m.names().len(),
            m.wf(),
            !has_unknown_value(m.prefix(i as int)),
        decreases n - i,
    {
        proof {
            m.lemma_prefix_step(i as int);
        }
        if resolve_column(m.value_at(i)).is_none() {
            return true;
        }
        i += 1;
    }
    proof {
        m.lemma_prefix_ends();
    }
    false
}

/// Whether some partly known shared input is in additive form.
fn any_additive(m: &NamedMap<MaybeRep3ShareVecType>) -> (r: bool)
    ensures
        r == has_additive(m@),
{
    let n = m.len();
    let mut i: usize = 0;
    proof {
        m.lemma_prefix_ends();
    }
    while i < n
        invariant
            i <= n,
            n == m.names().len(),
            m.wf(),
            !has_additive(m.prefix(i as int)),
        decreases n - i,
    {
        proof {
            m.lemma_prefix_step(i as int);
        }
        match m.value_at(i) {
            MaybeRep3ShareVecType::Replicated(_) => {},
            MaybeRep3ShareVecType::Additive(_) => {
                return true;
            },
        }
        i += 1;
    }
    proof {
        m.lemma_prefix_ends();
    }
    false
}

/// Whether some partly known shared input in replicated form has an index
/// that is not known.
fn any_unknown_share(m: &NamedMap<MaybeRep3ShareVecType>) -> (r: bool)
    ensures
        r == has_unknown_share(m@),
{
    let n = m.len();
    let mut i: usize = 0;
    proof {
        m.lemma_prefix_ends();
    }
    while i < n
        invariant
            i <= n,
            n == m.names().len(),
            m.wf(),
            !has_unknown_share(m.prefix(i as int)),
        decreases n - i,
    {
        proof {
            m.lemma_prefix_step(i as int);
        }
        match m.value_at(i) {
            MaybeRep3ShareVecType::Replicated(column) => {
                if resolve_column(column).is_none() {
                    return true;
                }
            },
            MaybeRep3ShareVecType::Additive(_) => {},
        }
        i += 1;
    }
    proof {
        m.lemma_prefix_ends();
    }
    false
}

/// Puts the values of every column of `from`, all of them known, into
/// `into` under the column's name.
fn promote_columns(
    into: &mut NamedMap<Vec<FieldElement>>,
    from: &NamedMap<Vec<Option<FieldElement>>>,
)
    requires
        !has_unknown_value(from@),
    ensures
        final(into)@ == old(into)@.union_prefer_right(resolved_columns(from@)),
{
    let n = from.len();
    let mut i: usize = 0;
    proof {
        from.lemma_prefix_ends();
        assert(into@.union_prefer_right(resolved_columns(from.prefix(0))) =~= into@);
    }
    while i < n
        invariant
            i <= n,
            n == from.names().len(),
            from.wf(),
            !has_unknown_value(from@),
            into@ == old(into)@.union_prefer_right(resolved_columns(from.prefix(i as int))),
        decreases n - i,
    {
        proof {
            from.lemma_prefix_step(i as int);
        }
        let name = from.name_at(i).clone();
        match resolve_column(from.value_at(i)) {
            Some(values) => {
                into.insert(name, values);
            },
            None => {
                assert(false);
            },
        }
        assert(into@ =~= old(into)@.union_prefer_right(resolved_columns(from.prefix(i + 1))));
        i += 1;
    }
    proof {
        from.lemma_prefix_ends();
    }
}

/// Puts the shares of every entry of `from`, all of them known and in
/// replicated form, into `into` under the entry's name.
fn promote_shares(
    into: &mut NamedMap<Vec<Rep3PrimeFieldShare>>,
    from: &NamedMap<MaybeRep3ShareVecType>,
)
    requires
        !has_additive(from@),
        !has_unknown_share(from@),
    ensures
        final(into)@ == old(into)@.union_prefer_right(resolved_shares(from@)),
{
    let n = from.len();
    let mut i: usize = 0;
    proof {
        from.lemma_prefix_ends();
        assert(into@.union_prefer_right(resolved_shares(from.prefix(0))) =~= into@);
    }
    while i < n
        invariant
            i <= n,
            n == from.names().len(),
            from.wf(),
            !has_additive(from@),
            !has_unknown_share(from@),
            into@ == old(into)@.union_prefer_right(resolved_shares(from.prefix(i as int))),
        decreases n - i,
    {
        proof {
            from.lemma_prefix_step(i as int);
        }
        let name = from.name_at(i).clone();
        match from.value_at(i) {
            MaybeRep3ShareVecType::Replicated(column) => {
                match resolve_column(column) {
                    Some(shares) => {
                        into.insert(name, shares);
                    },
                    None => {
                        assert(false);
                    },
                }
            },
            MaybeRep3ShareVecType::Additive(_) => {
                assert(false);
            },
        }
        assert(into@ =~= old(into)@.union_prefer_right(resolved_shares(from.prefix(i + 1))));
        i += 1;
    }
    proof {
        from.lemma_prefix_ends();
    }
}

/// What is gathered from the sources while complete inputs are built.
struct Gathered {
    public: NamedMap<Vec<FieldElement>>,
    shared: NamedMap<Vec<Rep3PrimeFieldShare>>,
    maybe_public: NamedMap<Vec<Option<FieldElement>>>,
    maybe_shared: NamedMap<MaybeRep3ShareVecType>,
}

impl View for Gathered {
    type V = Staged;

    closed spec fn view(&self) -> Staged {
        Staged {
            public: self.public@,
            shared: self.shared@,
            maybe_public: self.maybe_public@,
            maybe_shared: self.maybe_shared@,
        }
    }
}

impl Gathered {
    /// Takes one more source in, unless something it states cannot stand
    /// with what was gathered before.
    fn absorb(&mut self, source: &SerializeableSharedRep3Input) -> (r: Result<(), MergeError>)
        ensures
            match r {
                Ok(_) => old(self)@.absorb_error(source@) is None && final(self)@ == old(
                    self,
                )@.absorb(source@),
                Err(e) => old(self)@.absorb_error(source@) == Some(e),
            },
    {
        if public_inputs_mismatch(&self.public, &source.public_inputs) {
            return Err(MergeError::PublicInputMismatch);
        }
        if any_unsupported_share(&source.shared_inputs) {
            return Err(MergeError::UnsupportedCombination);
        }
        if source.shared_inputs.shares_key_with(&self.shared) {
            return Err(MergeError::SharedInputDuplicate);
        }
        if any_lengths_differ(&self.maybe_public, &source.maybe_public_inputs) {
            return Err(MergeError::LengthMismatch);
        }
        if any_maybe_public_conflict(&self.maybe_public, &source.maybe_public_inputs) {
            return Err(MergeError::MaybePublicConflict);
        }
        if any_unsupported_pair(&self.maybe_shared, &source.maybe_shared_inputs) {
            return Err(MergeError::UnsupportedCombination);
        }
        if any_maybe_shared_conflict(&self.maybe_shared, &source.maybe_shared_inputs) {
            return Err(MergeError::MaybeSharedConflict);
        }
        extend_columns(&mut self.public, &source.public_inputs);
        extend_replicated(&mut self.shared, &source.shared_inputs);
        stage_columns(&mut self.maybe_public, &source.maybe_public_inputs);
        stage_shares(&mut self.maybe_shared, &source.maybe_shared_inputs);
        Ok(())
    }

    /// Makes complete inputs of what was gathered, unless an index is still
    /// unknown or a name stands for two things.
    fn resolve(self) -> (r: Result<SharedInput<Rep3PrimeFieldShare>, MergeError>)
        ensures
            match r {
                Ok(inputs) => self@.resolve_error() is None && inputs@ == self@.resolve(),
                Err(e) => self@.resolve_error() == Some(e),
            },
    {
        if self.maybe_public.shares_key_with(&self.public) {
            return Err(MergeError::PublicAndMaybePublic);
        }
        if any_unknown_value(&self.maybe_public) {
            return Err(MergeError::StillUnmerged);
        }
        if self.maybe_shared.shares_key_with(&self.shared) {
            return Err(MergeError::SharedAndMaybeShared);
        }
        if any_additive(&self.maybe_shared) {
            return Err(MergeError::UnsupportedCombination);
        }
        if any_unknown_share(&self.maybe_shared) {
            return Err(MergeError::StillUnmerged);
        }
        proof {
            lemma_unions_disjoint(
                self@.shared.dom(),
                self@.maybe_shared.dom(),
                self@.public.dom(),
                self@.maybe_public.dom(),
            );
        }
        if self.shared.shares_key_with(&self.public) || self.shared.shares_key_with(
            &self.maybe_public,
        ) || self.maybe_shared.shares_key_with(&self.public) || self.maybe_shared.shares_key_with(
            &self.maybe_public,
        ) {
            return Err(MergeError::SharedAndPublic);
        }
        let mut public_inputs = self.public;
        promote_columns(&mut public_inputs, &self.maybe_public);
        let mut shared_inputs = self.shared;
        promote_shares(&mut shared_inputs, &self.maybe_shared);
        Ok(SharedInput { public_inputs, shared_inputs })
    }
}

impl SharedInput<Rep3PrimeFieldShare> {
    /// Builds complete inputs from what any number of providers state. The
    /// sources are taken in one after the other; then every partly known
    /// input must be known at every index, and is put with the others under
    /// its name.
    pub fn build_from_sources(sources: Vec<SerializeableSharedRep3Input>) -> (r: Result<
        Self,
        MergeError,
    >)
        ensures
            match r {
                Ok(inputs) => build_result(source_views(sources@)) == Ok::<
                    SharedInputView<Rep3PrimeFieldShare>,
                    MergeError,
                >(inputs@),
                Err(e) => build_result(source_views(sources@)) == Err::<
                    SharedInputView<Rep3PrimeFieldShare>,
                    MergeError,
                >(e),
            },
    {
        let mut gathered = Gathered {
            public: NamedMap::new(),
            shared: NamedMap::new(),
            maybe_public: NamedMap::new(),
            maybe_shared: NamedMap::new(),
        };
        let ghost views = source_views(sources@);
        let mut i: usize = 0;
        while i < sources.len()
            invariant
                i <= sources.len(),
                views == source_views(sources@),
                Staged::empty().absorb_all(views, 0) == gathered@.absorb_all(views, i as int),
            decreases sources.len() - i,
        {
            let ghost before = gathered@;
            assert(views[i as int] == sources[i as int]@);
            match gathered.absorb(&sources[i]) {
                Ok(_) => {},
                Err(e) => {
                    assert(before.absorb_all(views, i as int) == Err::<Staged, MergeError>(e));
                    return Err(e);
                },
            }
            assert(before.absorb_all(views, i as int) == gathered@.absorb_all(views, i + 1));
            i += 1;
        }
        assert(gathered@.absorb_all(views, i as int) == Ok::<Staged, MergeError>(gathered@));
        gathered.resolve()
    }
}

/// What a source states that states nothing but one partly known shared
/// input in replicated form.
pub open spec fn single_column_source(
    name: Seq<char>,
    column: Seq<Option<Rep3PrimeFieldShare>>,
) -> InputView {
    InputView {
        public: Map::empty(),
        maybe_public: Map::empty(),
        shared: Map::empty(),
        maybe_shared: Map::empty().insert(name, MaybeShareVecView::Replicated(column)),
    }
}

/// The three columns are of one length, and at each index exactly one of
/// them states a share.
pub open spec fn is_partition(
    c0: Seq<Option<Rep3PrimeFieldShare>>,
    c1: Seq<Option<Rep3PrimeFieldShare>>,
    c2: Seq<Option<Rep3PrimeFieldShare>>,
) -> bool {
    &&& c0.len() == c1.len()
    &&& c0.len() == c2.len()
    &&& forall|i: int|
        0 <= i < c0.len() ==> (c0[i] is Some && c1[i] is None && c2[i] is None) || (c0[i] is None
            && c1[i] is Some && c2[i] is None) || (c0[i] is None && c1[i] is None
            && c2[i] is Some)
}

/// The column that holds at each index the share that one of the three
/// columns states there.
pub open spec fn united(
    c0: Seq<Option<Rep3PrimeFieldShare>>,
    c1: Seq<Option<Rep3PrimeFieldShare>>,
    c2: Seq<Option<Rep3PrimeFieldShare>>,
) -> Seq<Rep3PrimeFieldShare> {
    Seq::new(
        c0.len(),
        |i: int|
            if c0[i] is Some {
                c0[i]->0
            } else if c1[i] is Some {
                c1[i]->0
            } else {
                c2[i]->0
            },
    )
}

/// Three sources that state one shared input between them, each index by
/// exactly one of them, build complete inputs in which that input is known
/// at every index, and which hold nothing else.
pub proof fn lemma_partition_resolves(
    name: Seq<char>,
    c0: Seq<Option<Rep3PrimeFieldShare>>,
    c1: Seq<Option<Rep3PrimeFieldShare>>,
    c2: Seq<Option<Rep3PrimeFieldShare>>,
)
    requires
        is_partition(c0, c1, c2),
    ensures
        build_result(
            seq![
                single_column_source(name, c0),
                single_column_source(name, c1),
                single_column_source(name, c2),
            ],
        ) == Ok::<SharedInputView<Rep3PrimeFieldShare>, MergeError>(
            SharedInputView {
                public: Map::empty(),
                shared: Map::empty().insert(name, united(c0, c1, c2)),
            },
        ),
{
    let v0 = single_column_source(name, c0);
    let v1 = single_column_source(name, c1);
    let v2 = single_column_source(name, c2);
    let sources = seq![v0, v1, v2];
    let st0 = Staged::empty();
    assert(st0.absorb_error(v0) is None);
    let st1 = st0.absorb(v0);
    assert(st1.public =~= Map::empty());
    assert(st1.shared =~= Map::empty());
    assert(st1.maybe_public =~= Map::empty());
    assert(st1.maybe_shared =~= v0.maybe_shared);
    assert(!columns_conflict(c0, c1));
    assert(st1.absorb_error(v1) is None);
    let st2 = st1.absorb(v1);
    let m01 = merged_column(c0, c1);
    assert(st2.public =~= Map::empty());
    assert(st2.shared =~= Map::empty());
    assert(st2.maybe_public =~= Map::empty());
    assert(st2.maybe_shared =~= Map::empty().insert(name, MaybeShareVecView::Replicated(m01)));
    assert(!columns_conflict(m01, c2));
    assert(st2.absorb_error(v2) is None);
    let st3 = st2.absorb(v2);
    let m = merged_column(m01, c2);
    assert(st3.public =~= Map::empty());
    assert(st3.shared =~= Map::empty());
    assert(st3.maybe_public =~= Map::empty());
    assert(st3.maybe_shared =~= Map::empty().insert(name, MaybeShareVecView::Replicated(m)));
    assert(st3.absorb_all(sources, 3) == Ok::<Staged, MergeError>(st3));
    assert(st2.absorb_all(sources, 2) == st3.absorb_all(sources, 3));
    assert(st1.absorb_all(sources, 1) == st2.absorb_all(sources, 2));
    assert(st0.absorb_all(sources, 0) == st1.absorb_all(sources, 1));
    assert(fully_known(m));
    assert(st3.resolve_error() is None);
    assert(known_values(m) =~= united(c0, c1, c2));
    assert(st3.resolve().public =~= Map::empty());
    assert(st3.resolve().shared =~= Map::empty().insert(name, united(c0, c1, c2)));
}

/// Sources of which the first two state a share for the same index of one
/// shared input do not build complete inputs.
pub proof fn lemma_overlap_fails(
    name: Seq<char>,
    c0: Seq<Option<Rep3PrimeFieldShare>>,
    c1: Seq<Option<Rep3PrimeFieldShare>>,
    sources: Seq<InputView>,
)
    requires
        sources.len() >= 2,
        sources[0] == single_column_source(name, c0),
        sources[1] == single_column_source(name, c1),
        columns_conflict(c0, c1),
    ensures
        build_result(sources) == Err::<SharedInputView<Rep3PrimeFieldShare>, MergeError>(
            MergeError::MaybeSharedConflict,
        ),
{
    let v0 = sources[0];
    let v1 = sources[1];
    let st0 = Staged::empty();
    assert(st0.absorb_error(v0) is None);
    let st1 = st0.absorb(v0);
    assert(st1.public =~= Map::empty());
    assert(st1.shared =~= Map::empty());
    assert(st1.maybe_public =~= Map::empty());
    assert(st1.maybe_shared =~= v0.maybe_shared);
    assert(st1.maybe_shared.contains_key(name) && v1.maybe_shared.contains_key(name));
    assert(maybe_shares_conflict(st1.maybe_shared[name], v1.maybe_shared[name]));
    assert(maybe_shared_conflict(st1.maybe_shared, v1.maybe_shared));
    assert(st1.absorb_error(v1) == Some(MergeError::MaybeSharedConflict));
    assert(st1.absorb_all(sources, 1) == Err::<Staged, MergeError>(
        MergeError::MaybeSharedConflict,
    ));
    assert(st0.absorb_all(sources, 0) == st1.absorb_all(sources, 1));
}

} // verus!
