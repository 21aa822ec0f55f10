//! Named inputs of a witness extension, as one provider states them and as
//! several providers' statements are merged into one.

use crate::field::FieldElement;
use crate::field::RngType;
use crate::names::NamedMap;
use crate::rep3::is_maybe_additive_sharing;
use crate::rep3::is_maybe_replicated_sharing;
use crate::rep3::is_rep3_sharing;
use crate::rep3::share_in_form;
use crate::rep3::share_maybe_field_elements;
use crate::rep3::share_maybe_field_elements_additive;
use crate::rep3::MaybeRep3ShareVecType;
use crate::rep3::MaybeShareVecView;
use crate::rep3::Rep3ShareVecType;
use crate::rep3::ShareVecView;
use vstd::prelude::*;

verus! {

/// Why inputs could not be merged.
#[derive(Clone, Copy, Debug, PartialEq, Eq, Structural)]
pub enum MergeError {
    /// A public input of one side is not stated by the other.
    PublicInputMissing,
    /// A public input has different values on the two sides.
    PublicInputMismatch,
    /// A name is both a public input and a partly known public input.
    PublicAndMaybePublic,
    /// A partly known public input of one side is not staged by the other.
    MaybePublicMissing,
    /// Both sides state a value for one index of a partly known public input.
    MaybePublicConflict,
    /// A shared input is stated by both sides.
    SharedInputDuplicate,
    /// A name is both a shared input and a public input.
    SharedAndPublic,
    /// The two sides do not stage the same partly known shared inputs.
    MaybeSharedKeyMismatch,
    /// A partly known shared input is shared in different forms on the two
    /// sides.
    ShareTypeMismatch,
    /// Both sides state a share for one index of a partly known shared
    /// input.
    MaybeSharedConflict,
    /// A name is both a shared input and a partly known shared input.
    SharedAndMaybeShared,
    /// Two statements of a partly known public input differ in length.
    LengthMismatch,
    /// After all sources were merged, an index is still unknown.
    StillUnmerged,
    /// The form of sharing is one for which no merge is defined.
    UnsupportedCombination,
}

/// Both columns state a value at some index.
pub open spec fn columns_conflict<T>(mine: Seq<Option<T>>, theirs: Seq<Option<T>>) -> bool {
    exists|j: int| 0 <= j < mine.len() && j < theirs.len() && mine[j] is Some && theirs[j] is Some
}

/// The column that holds, at each index that both columns have, the value
/// that one of them states there, if any.
pub open spec fn merged_column<T>(mine: Seq<Option<T>>, theirs: Seq<Option<T>>) -> Seq<Option<T>> {
    Seq::new(
        if mine.len() <= theirs.len() {
            mine.len()
        } else {
            theirs.len()
        },
        |j: int|
            if mine[j] is Some {
                mine[j]
            } else {
                theirs[j]
            },
    )
}

/// Merging states nothing new: at every index the merged column holds what
/// one of the two columns holds there, and it holds a value exactly where
/// one of them does.
pub proof fn lemma_merged_column_only_rearranges<T>(
    mine: Seq<Option<T>>,
    theirs: Seq<Option<T>>,
    j: int,
)
    requires
        0 <= j < merged_column(mine, theirs).len(),
    ensures
        j < mine.len(),
        j < theirs.len(),
        merged_column(mine, theirs)[j] == mine[j] || merged_column(mine, theirs)[j] == theirs[j],
        merged_column(mine, theirs)[j] is Some <==> mine[j] is Some || theirs[j] is Some,
{
}

/// Every index of the column is known.
pub open spec fn fully_known<T>(column: Seq<Option<T>>) -> bool {
    forall|j: int| 0 <= j < column.len() ==> (#[trigger] column[j]) is Some
}

/// The values of a fully known column.
pub open spec fn known_values<T>(column: Seq<Option<T>>) -> Seq<T> {
    Seq::new(column.len(), |j: int| column[j]->0)
}

/// Merges two columns index by index, unless both state a value somewhere.
pub fn merge_columns<T: Copy>(mine: &Vec<Option<T>>, theirs: &Vec<Option<T>>) -> (r: Option<
    Vec<Option<T>>,
>)
    ensures
        match r {
            Some(merged) => !columns_conflict(mine@, theirs@) && merged@ == merged_column(
                mine@,
                theirs@,
            ),
            None => columns_conflict(mine@, theirs@),
        },
{
    let n = if mine.len() <= theirs.len() {
        mine.len()
    } else {
        theirs.len()
    };
    let mut merged: Vec<Option<T>> = Vec::new();
    let mut i: usize = 0;
    while i < n
        invariant
            i <= n,
            n <= mine.len(),
            n <= theirs.len(),
            merged.len() == i,
            forall|j: int| 0 <= j < i ==> !(mine[j] is Some && theirs[j] is Some),
            forall|j: int| 0 <= j < i ==> #[trigger] merged[j] == merged_column(mine@, theirs@)[j],
        decreases n - i,
    {
        match (mine[i], theirs[i]) {
            (Some(_), Some(_)) => {
                return None;
            },
            (Some(m), None) => {
                merged.push(Some(m));
            },
            (None, t) => {
                merged.push(t);
            },
        }
        i += 1;
    }
    assert(merged@ =~= merged_column(mine@, theirs@));
    Some(merged)
}

/// The values of a column, if every index of it is known.
pub fn resolve_column<T: Copy>(column: &Vec<Option<T>>) -> (r: Option<Vec<T>>)
    ensures
        match r {
            Some(values) => fully_known(column@) && values@ == known_values(column@),
            None => !fully_known(column@),
        },
{
    let mut values: Vec<T> = Vec::new();
    let mut i: usize = 0;
    while i < column.len()
        invariant
            i <= column.len(),
            values.len() == i,
            forall|j: int| 0 <= j < i ==> (#[trigger] column[j]) is Some,
            forall|j: int| 0 <= j < i ==> #[trigger] values[j] == column[j]->0,
        decreases column.len() - i,
    {
        match column[i] {
            Some(v) => {
                values.push(v);
            },
            None => {
                return None;
            },
        }
        i += 1;
    }
    assert(values@ =~= known_values(column@));
    Some(values)
}

/// Whether two vectors of field elements hold the same elements.
pub fn same_elements(a: &Vec<FieldElement>, b: &Vec<FieldElement>) -> (r: bool)
    ensures
        r == (a@ == b@),
{
    if a.len() != b.len() {
        return false;
    }
    let mut i: usize = 0;
    while i < a.len()
        invariant
            i <= a.len(),
            a.len() == b.len(),
            forall|j: int| 0 <= j < i ==> a[j] == b[j],
        decreases a.len() - i,
    {
        if a[i] != b[i] {
            return false;
        }
        i += 1;
    }
    assert(a@ =~= b@);
    true
}

/// The two partly known shares are of the same form of sharing.
pub open spec fn same_share_type(a: MaybeShareVecView, b: MaybeShareVecView) -> bool {
    (a is Replicated && b is Replicated) || (a is Additive && b is Additive)
}

/// Both partly known shares state a share at some index.
pub open spec fn maybe_shares_conflict(a: MaybeShareVecView, b: MaybeShareVecView) -> bool {
    match (a, b) {
        (MaybeShareVecView::Replicated(x), MaybeShareVecView::Replicated(y)) => columns_conflict(
            x,
            y,
        ),
        (MaybeShareVecView::Additive(x), MaybeShareVecView::Additive(y)) => columns_conflict(x, y),
        _ => false,
    }
}

/// Two partly known shares of one form, merged index by index.
pub open spec fn merged_maybe_shares(
    a: MaybeShareVecView,
    b: MaybeShareVecView,
) -> MaybeShareVecView {
    match (a, b) {
        (
            MaybeShareVecView::Replicated(x),
            MaybeShareVecView::Replicated(y),
        ) => MaybeShareVecView::Replicated(merged_column(x, y)),
        (MaybeShareVecView::Additive(x), MaybeShareVecView::Additive(y)) => MaybeShareVecView::Additive(
            merged_column(x, y),
        ),
        _ => a,
    }
}

/// Merges two partly known shares of one form index by index.
pub fn merge_maybe_shares(mine: &MaybeRep3ShareVecType, theirs: &MaybeRep3ShareVecType) -> (r:
    Result<MaybeRep3ShareVecType, MergeError>)
    ensures
        match r {
            Ok(merged) => same_share_type(mine@, theirs@) && !maybe_shares_conflict(
                mine@,
                theirs@,
            ) && merged@ == merged_maybe_shares(mine@, theirs@),
            Err(e) => if same_share_type(mine@, theirs@) {
                maybe_shares_conflict(mine@, theirs@) && e == MergeError::MaybeSharedConflict
            } else {
                e == MergeError::ShareTypeMismatch
            },
        },
{
    match (mine, theirs) {
        (MaybeRep3ShareVecType::Replicated(x), MaybeRep3ShareVecType::Replicated(y)) => {
            match merge_columns(x, y) {
                Some(merged) => Ok(MaybeRep3ShareVecType::Replicated(merged)),
                None => Err(MergeError::MaybeSharedConflict),
            }
        },
        (MaybeRep3ShareVecType::Additive(x), MaybeRep3ShareVecType::Additive(y)) => {
            match merge_columns(x, y) {
                Some(merged) => Ok(MaybeRep3ShareVecType::Additive(merged)),
                None => Err(MergeError::MaybeSharedConflict),
            }
        },
        _ => Err(MergeError::ShareTypeMismatch),
    }
}

/// What one provider states of the inputs: public inputs, public inputs of
/// which some indices are left to other providers, shared inputs, and shared
/// inputs of which some indices are left to other providers.
#[derive(Debug)]
pub struct SerializeableSharedRep3Input {
    pub public_inputs: NamedMap<Vec<FieldElement>>,
    pub maybe_public_inputs: NamedMap<Vec<Option<FieldElement>>>,
    pub shared_inputs: NamedMap<Rep3ShareVecType>,
    pub maybe_shared_inputs: NamedMap<MaybeRep3ShareVecType>,
}

/// The four maps of a [`SerializeableSharedRep3Input`].
pub struct InputView {
    pub public: Map<Seq<char>, Seq<FieldElement>>,
    pub maybe_public: Map<Seq<char>, Seq<Option<FieldElement>>>,
    pub shared: Map<Seq<char>, ShareVecView>,
    pub maybe_shared: Map<Seq<char>, MaybeShareVecView>,
}

impl View for SerializeableSharedRep3Input {
    type V = InputView;

    open spec fn view(&self) -> InputView {
        InputView {
            public: self.public_inputs@,
            maybe_public: self.maybe_public_inputs@,
            shared: self.shared_inputs@,
            maybe_shared: self.maybe_shared_inputs@,
        }
    }
}

impl InputView {
    /// No name is a key of two of the four maps.
    pub open spec fn consistent(self) -> bool {
        &&& self.public.dom().disjoint(self.maybe_public.dom())
        &&& self.public.dom().disjoint(self.shared.dom())
        &&& self.public.dom().disjoint(self.maybe_shared.dom())
        &&& self.maybe_public.dom().disjoint(self.shared.dom())
        &&& self.maybe_public.dom().disjoint(self.maybe_shared.dom())
        &&& self.shared.dom().disjoint(self.maybe_shared.dom())
    }
}

/// Some public input has different values in the two maps.
pub open spec fn public_mismatch(
    a: Map<Seq<char>, Seq<FieldElement>>,
    b: Map<Seq<char>, Seq<FieldElement>>,
) -> bool {
    exists|k: Seq<char>| a.contains_key(k) && b.contains_key(k) && a[k] != b[k]
}

/// Some partly known public input has a value from both sides at an index.
pub open spec fn maybe_public_conflict(
    a: Map<Seq<char>, Seq<Option<FieldElement>>>,
    b: Map<Seq<char>, Seq<Option<FieldElement>>>,
) -> bool {
    exists|k: Seq<char>| a.contains_key(k) && b.contains_key(k) && columns_conflict(a[k], b[k])
}

/// Some partly known shared input is shared in two forms.
pub open spec fn share_type_mismatch(
    a: Map<Seq<char>, MaybeShareVecView>,
    b: Map<Seq<char>, MaybeShareVecView>,
) -> bool {
    exists|k: Seq<char>| a.contains_key(k) && b.contains_key(k) && !same_share_type(a[k], b[k])
}

/// Some partly known shared input has a share from both sides at an index.
pub open spec fn maybe_shared_conflict(
    a: Map<Seq<char>, MaybeShareVecView>,
    b: Map<Seq<char>, MaybeShareVecView>,
) -> bool {
    exists|k: Seq<char>| a.contains_key(k) && b.contains_key(k) && maybe_shares_conflict(a[k], b[k])
}

/// The reason for which two inputs cannot be merged, if there is one. Of
/// several reasons the first in this order is given.
pub open spec fn merge_error(a: InputView, b: InputView) -> Option<MergeError> {
    if !b.public.dom().subset_of(a.public.dom()) {
        Some(MergeError::PublicInputMissing)
    } else if public_mismatch(a.public, b.public) {
        Some(MergeError::PublicInputMismatch)
    } else if !(a.maybe_public.dom() + b.maybe_public.dom()).disjoint(
        a.public.dom() + b.public.dom(),
    ) {
        Some(MergeError::PublicAndMaybePublic)
    } else if a.maybe_public.dom() != b.maybe_public.dom() {
        Some(MergeError::MaybePublicMissing)
    } else if maybe_public_conflict(a.maybe_public, b.maybe_public) {
        Some(MergeError::MaybePublicConflict)
    } else if !a.shared.dom().disjoint(b.shared.dom()) {
        Some(MergeError::SharedInputDuplicate)
    } else if !(a.shared.dom() + b.shared.dom()).disjoint(a.public.dom() + b.public.dom()) {
        Some(MergeError::SharedAndPublic)
    } else if a.maybe_shared.dom() != b.maybe_shared.dom() {
        Some(MergeError::MaybeSharedKeyMismatch)
    } else if share_type_mismatch(a.maybe_shared, b.maybe_shared) {
        Some(MergeError::ShareTypeMismatch)
    } else if maybe_shared_conflict(a.maybe_shared, b.maybe_shared) {
        Some(MergeError::MaybeSharedConflict)
    } else {
        None
    }
}

/// What two inputs that can be merged are merged into: the public inputs of
/// the first, the shared inputs of both, and every partly known input with
/// its two columns merged index by index. A partly known input stays one,
/// also where every index of it is known now.
pub open spec fn merged_view(a: InputView, b: InputView) -> InputView {
    InputView {
        public: a.public,
        maybe_public: Map::new(
            |k: Seq<char>| a.maybe_public.contains_key(k),
            |k: Seq<char>| merged_column(a.maybe_public[k], b.maybe_public[k]),
        ),
        shared: a.shared.union_prefer_right(b.shared),
        maybe_shared: Map::new(
            |k: Seq<char>| a.maybe_shared.contains_key(k),
            |k: Seq<char>| merged_maybe_shares(a.maybe_shared[k], b.maybe_shared[k]),
        ),
    }
}

/// Merging keeps the names apart: where no name occurs twice in either
/// input, none occurs twice in what they are merged into.
pub proof fn lemma_merge_keeps_consistency(a: InputView, b: InputView)
    requires
        a.consistent(),
        b.consistent(),
        merge_error(a, b) is None,
    ensures
        merged_view(a, b).consistent(),
{
    let m = merged_view(a, b);
    assert(m.maybe_public.dom() =~= a.maybe_public.dom());
    assert(m.maybe_shared.dom() =~= a.maybe_shared.dom());
    assert(m.shared.dom() =~= a.shared.dom() + b.shared.dom());
    assert(a.maybe_public.dom() == b.maybe_public.dom());
    assert(a.maybe_shared.dom() == b.maybe_shared.dom());
    assert forall|k: Seq<char>| m.public.dom().contains(k) implies !m.shared.dom().contains(k) by {
        if m.shared.dom().contains(k) {
            assert((a.shared.dom() + b.shared.dom()).contains(k));
            assert((a.public.dom() + b.public.dom()).contains(k));
        }
    }
}

/// Merging index by index does not depend on how three columns are
/// grouped.
pub proof fn lemma_merged_column_associative<T>(
    x: Seq<Option<T>>,
    y: Seq<Option<T>>,
    z: Seq<Option<T>>,
)
    ensures
        merged_column(merged_column(x, y), z) == merged_column(x, merged_column(y, z)),
{
    assert(merged_column(merged_column(x, y), z) =~= merged_column(x, merged_column(y, z)));
}

/// Merging does not depend on how three inputs are grouped: where both
/// ways of merging them go through, both give the same.
pub proof fn lemma_merge_associative(a: InputView, b: InputView, c: InputView)
    requires
        merge_error(a, b) is None,
        merge_error(merged_view(a, b), c) is None,
        merge_error(b, c) is None,
        merge_error(a, merged_view(b, c)) is None,
    ensures
        merged_view(merged_view(a, b), c) == merged_view(a, merged_view(b, c)),
{
    let left = merged_view(merged_view(a, b), c);
    let right = merged_view(a, merged_view(b, c));
    assert(left.public =~= right.public);
    assert(left.shared =~= right.shared);
    assert(left.maybe_public.dom() =~= right.maybe_public.dom());
    assert forall|k: Seq<char>| left.maybe_public.contains_key(k) implies left.maybe_public[k]
        == right.maybe_public[k] by {
        assert(b.maybe_public.contains_key(k));
        lemma_merged_column_associative(a.maybe_public[k], b.maybe_public[k], c.maybe_public[k]);
    }
    assert(left.maybe_public =~= right.maybe_public);
    assert(left.maybe_shared.dom() =~= right.maybe_shared.dom());
    assert forall|k: Seq<char>| left.maybe_shared.contains_key(k) implies left.maybe_shared[k]
        == right.maybe_shared[k] by {
        assert(b.maybe_shared.contains_key(k));
        assert(c.maybe_shared.contains_key(k));
        let x = a.maybe_shared[k];
        let y = b.maybe_shared[k];
        let z = c.maybe_shared[k];
        assert(same_share_type(x, y));
        assert(same_share_type(y, z));
        match (x, y, z) {
            (
                MaybeShareVecView::Replicated(p),
                MaybeShareVecView::Replicated(q),
                MaybeShareVecView::Replicated(r),
            ) => {
                lemma_merged_column_associative(p, q, r);
            },
            (
                MaybeShareVecView::Additive(p),
                MaybeShareVecView::Additive(q),
                MaybeShareVecView::Additive(r),
            ) => {
                lemma_merged_column_associative(p, q, r);
            },
            _ => {},
        }
    }
    assert(left.maybe_shared =~= right.maybe_shared);
}

/// Two unions of sets are disjoint exactly if each set of the one is
/// disjoint from each set of the other.
pub proof fn lemma_unions_disjoint<A>(a: Set<A>, b: Set<A>, c: Set<A>, d: Set<A>)
    ensures
        (a + b).disjoint(c + d) <==> a.disjoint(c) && a.disjoint(d) && b.disjoint(c) && b.disjoint(
            d,
        ),
{
    if (a + b).disjoint(c + d) {
        assert forall|x: A| a.contains(x) implies !c.contains(x) && !d.contains(x) by {
            if a.contains(x) {
                assert((a + b).contains(x));
                assert(!(c + d).contains(x));
            }
        }
        assert forall|x: A| b.contains(x) implies !c.contains(x) && !d.contains(x) by {
            if b.contains(x) {
                assert((a + b).contains(x));
                assert(!(c + d).contains(x));
            }
        }
    }
}

/// A set that is disjoint from a set is disjoint from each part of it.
pub proof fn lemma_disjoint_from_part<A>(a: Set<A>, part: Set<A>, whole: Set<A>)
    requires
        part.subset_of(whole),
        a.disjoint(whole),
    ensures
        a.disjoint(part),
{
}

/// Moves every entry of `from` into `into`.
pub(crate) fn move_entries<V: View>(into: &mut NamedMap<V>, from: NamedMap<V>)
    ensures
        final(into)@ == old(into)@.union_prefer_right(from@),
{
    let mut rest = from;
    while rest.len() > 0
        invariant
            into@.union_prefer_right(rest@) == old(into)@.union_prefer_right(from@),
        decreases rest.names().len(),
    {
        let ghost before = into@;
        let ghost rest_before = rest@;
        match rest.pop_last() {
            Some(entry) => {
                into.insert(entry.0, entry.1);
                assert(into@.union_prefer_right(rest@) =~= before.union_prefer_right(
                    rest_before,
                ));
            },
            None => {},
        }
    }
    proof {
        rest.len_is_dom();
        assert(into@.union_prefer_right(rest@) =~= into@);
    }
}

/// The three views are shares of `vals`, of which some elements are
/// unknown, in additive or in replicated form.
pub open spec fn is_maybe_rep3_sharing(
    vals: Seq<Option<FieldElement>>,
    additive: bool,
    s0: MaybeShareVecView,
    s1: MaybeShareVecView,
    s2: MaybeShareVecView,
) -> bool {
    match (s0, s1, s2) {
        (
            MaybeShareVecView::Additive(x0),
            MaybeShareVecView::Additive(x1),
            MaybeShareVecView::Additive(x2),
        ) => additive && is_maybe_additive_sharing(vals, x0, x1, x2),
        (
            MaybeShareVecView::Replicated(x0),
            MaybeShareVecView::Replicated(x1),
            MaybeShareVecView::Replicated(x2),
        ) => !additive && is_maybe_replicated_sharing(vals, x0, x1, x2),
        _ => false,
    }
}

/// Whether some public input has different values in the two maps.
pub fn public_inputs_mismatch(
    a: &NamedMap<Vec<FieldElement>>,
    b: &NamedMap<Vec<FieldElement>>,
) -> (r: bool)
    ensures
        r == public_mismatch(a@, b@),
{
    let n = b.len();
    let mut i: usize = 0;
    proof {
        b.lemma_prefix_ends();
    }
    while i < n
        invariant
            i <= n,
            n == b.names().len(),
            b.wf(),
            !public_mismatch(a@, b.prefix(i as int)),
        decreases n - i,
    {
        proof {
            b.lemma_prefix_step(i as int);
        }
        let theirs = b.value_at(i);
        match a.get(b.name_at(i).as_str()) {
            Some(mine) => {
                if !same_elements(mine, theirs) {
                    return true;
                }
            },
            None => {},
        }
        i += 1;
    }
    proof {
        b.lemma_prefix_ends();
    }
    false
}

impl Default for SerializeableSharedRep3Input {
    fn default() -> (r: Self)
        ensures
            r@.public == Map::<Seq<char>, Seq<FieldElement>>::empty(),
            r@.maybe_public == Map::<Seq<char>, Seq<Option<FieldElement>>>::empty(),
            r@.shared == Map::<Seq<char>, ShareVecView>::empty(),
            r@.maybe_shared == Map::<Seq<char>, MaybeShareVecView>::empty(),
    {
        SerializeableSharedRep3Input::new()
    }
}

impl SerializeableSharedRep3Input {
    /// An input that states nothing.
    pub fn new() -> (r: Self)
        ensures
            r@.public == Map::<Seq<char>, Seq<FieldElement>>::empty(),
            r@.maybe_public == Map::<Seq<char>, Seq<Option<FieldElement>>>::empty(),
            r@.shared == Map::<Seq<char>, ShareVecView>::empty(),
            r@.maybe_shared == Map::<Seq<char>, MaybeShareVecView>::empty(),
    {
        SerializeableSharedRep3Input {
            public_inputs: NamedMap::new(),
            maybe_public_inputs: NamedMap::new(),
            shared_inputs: NamedMap::new(),
            maybe_shared_inputs: NamedMap::new(),
        }
    }

    /// Shares `input` among the three parties, in the form that `seeded` and
    /// `additive` choose, under randomness drawn from `rng`.
    pub fn share_rep3(input: &[FieldElement], rng: &mut RngType, seeded: bool, additive: bool) -> (r:
        [Rep3ShareVecType; 3])
        ensures
            is_rep3_sharing(input@, seeded, additive, r[0]@, r[1]@, r[2]@),
    {
        let (share1, share2, share3) = share_in_form(input, rng, seeded, additive);
        [share1, share2, share3]
    }

    /// Shares an input of which some elements are unknown among the three
    /// parties, in additive or in replicated form, under randomness drawn
    /// from `rng`. No party gets a share of an unknown element.
    pub fn maybe_share_rep3(input: &[Option<FieldElement>], rng: &mut RngType, additive: bool) -> (r:
        [MaybeRep3ShareVecType; 3])
        ensures
            is_maybe_rep3_sharing(input@, additive, r[0]@, r[1]@, r[2]@),
    {
        if additive {
            let (share1, share2, share3) = share_maybe_field_elements_additive(input, rng);
            [
                MaybeRep3ShareVecType::Additive(share1),
                MaybeRep3ShareVecType::Additive(share2),
                MaybeRep3ShareVecType::Additive(share3),
            ]
        } else {
            let (share1, share2, share3) = share_maybe_field_elements(input, rng);
            [
                MaybeRep3ShareVecType::Replicated(share1),
                MaybeRep3ShareVecType::Replicated(share2),
                MaybeRep3ShareVecType::Replicated(share3),
            ]
        }
    }

    /// The partly known public inputs of both sides, merged index by index.
    fn merge_maybe_public(&self, other: &Self) -> (r: Option<
        NamedMap<Vec<Option<FieldElement>>>,
    >)
        requires
            self@.maybe_public.dom() == other@.maybe_public.dom(),
        ensures
            match r {
                Some(merged) => !maybe_public_conflict(self@.maybe_public, other@.maybe_public)
                    && merged@ == merged_view(self@, other@).maybe_public,
                None => maybe_public_conflict(self@.maybe_public, other@.maybe_public),
            },
    {
        let mine = &self.maybe_public_inputs;
        let n = mine.len();
        let mut merged: NamedMap<Vec<Option<FieldElement>>> = NamedMap::new();
        let mut i: usize = 0;
        while i < n
            invariant
                i <= n,
                n == mine.names().len(),
                mine.wf(),
                mine@ == self@.maybe_public,
                self@.maybe_public.dom() == other@.maybe_public.dom(),
                forall|j: int|
                    0 <= j < i ==> merged@.contains_key(#[trigger] mine.names()[j])
                        && !columns_conflict(
                        mine.values()[j],
                        other@.maybe_public[mine.names()[j]],
                    ),
                forall|k: Seq<char>|
                    #[trigger] merged@.contains_key(k) ==> self@.maybe_public.contains_key(k) && merged@[k]
                        == merged_column(self@.maybe_public[k], other@.maybe_public[k]),
            decreases n - i,
        {
            let name = mine.name_at(i);
            let column = mine.value_at(i);
            proof {
                assert(other@.maybe_public.dom().contains(name@));
            }
            match other.maybe_public_inputs.get(name.as_str()) {
                Some(theirs) => {
                    match merge_columns(column, theirs) {
                        Some(both) => {
                            merged.insert(name.clone(), both);
                        },
                        None => {
                            return None;
                        },
                    }
                },
                None => {
                    assert(false);
                },
            }
            i += 1;
        }
        proof {
            mine.lemma_view();
            assert forall|k: Seq<char>| self@.maybe_public.contains_key(k) implies merged@.contains_key(
                k,
            ) && !columns_conflict(self@.maybe_public[k], other@.maybe_public[k]) by {
                let j = mine.names().index_of(k);
                assert(mine.names()[j] == k);
            }
            assert forall|k: Seq<char>| merged@.contains_key(k) implies merged@[k] == merged_view(
                self@,
                other@,
            ).maybe_public[k] by {}
            assert(merged@.dom() =~= merged_view(self@, other@).maybe_public.dom());
            assert(merged@ =~= merged_view(self@, other@).maybe_public);
        }
        Some(merged)
    }

    /// The partly known shared inputs of both sides, merged index by index.
    fn merge_maybe_shared(&self, other: &Self) -> (r: Result<
        NamedMap<MaybeRep3ShareVecType>,
        MergeError,
    >)
        requires
            self@.maybe_shared.dom() == other@.maybe_shared.dom(),
            !share_type_mismatch(self@.maybe_shared, other@.maybe_shared),
        ensures
            match r {
                Ok(merged) => !maybe_shared_conflict(self@.maybe_shared, other@.maybe_shared)
                    && merged@ == merged_view(self@, other@).maybe_shared,
                Err(e) => maybe_shared_conflict(self@.maybe_shared, other@.maybe_shared) && e
                    == MergeError::MaybeSharedConflict,
            },
    {
        let mine = &self.maybe_shared_inputs;
        let n = mine.len();
        let mut merged: NamedMap<MaybeRep3ShareVecType> = NamedMap::new();
        let mut i: usize = 0;
        while i < n
            invariant
                i <= n,
                n == mine.names().len(),
                mine.wf(),
                mine@ == self@.maybe_shared,
                self@.maybe_shared.dom() == other@.maybe_shared.dom(),
                !share_type_mismatch(self@.maybe_shared, other@.maybe_shared),
                forall|j: int|
                    0 <= j < i ==> merged@.contains_key(#[trigger] mine.names()[j])
                        && !maybe_shares_conflict(
                        mine.values()[j],
                        other@.maybe_shared[mine.names()[j]],
                    ),
                forall|k: Seq<char>|
                    #[trigger] merged@.contains_key(k) ==> self@.maybe_shared.contains_key(k) && merged@[k]
                        == merged_maybe_shares(self@.maybe_shared[k], other@.maybe_shared[k]),
            decreases n - i,
        {
            let name = mine.name_at(i);
            let shares = mine.value_at(i);
            proof {
                assert(other@.maybe_shared.dom().contains(name@));
            }
            match other.maybe_shared_inputs.get(name.as_str()) {
                Some(theirs) => {
                    match merge_maybe_shares(shares, theirs) {
                        Ok(both) => {
                            merged.insert(name.clone(), both);
                        },
                        Err(_) => {
                            return Err(MergeError::MaybeSharedConflict);
                        },
                    }
                },
                None => {
                    assert(false);
                },
            }
            i += 1;
        }
        proof {
            mine.lemma_view();
            assert forall|k: Seq<char>| self@.maybe_shared.contains_key(k) implies merged@.contains_key(
                k,
            ) && !maybe_shares_conflict(self@.maybe_shared[k], other@.maybe_shared[k]) by {
                let j = mine.names().index_of(k);
                assert(mine.names()[j] == k);
            }
            assert forall|k: Seq<char>| merged@.contains_key(k) implies merged@[k] == merged_view(
                self@,
                other@,
            ).maybe_shared[k] by {}
            assert(merged@.dom() =~= merged_view(self@, other@).maybe_shared.dom());
            assert(merged@ =~= merged_view(self@, other@).maybe_shared);
        }
        Ok(merged)
    }

    /// Whether some partly known shared input is shared in two forms.
    fn share_types_differ(&self, other: &Self) -> (r: bool)
        requires
            self@.maybe_shared.dom() == other@.maybe_shared.dom(),
        ensures
            r == share_type_mismatch(self@.maybe_shared, other@.maybe_shared),
    {
        let mine = &self.maybe_shared_inputs;
        let n = mine.len();
        let mut i: usize = 0;
        while i < n
            invariant
                i <= n,
                n == mine.names().len(),
                mine.wf(),
                mine@ == self@.maybe_shared,
                self@.maybe_shared.dom() == other@.maybe_shared.dom(),
                forall|j: int|
                    0 <= j < i ==> same_share_type(
                        mine.values()[j],
                        other@.maybe_shared[#[trigger] mine.names()[j]],
                    ),
            decreases n - i,
        {
            let name = mine.name_at(i);
            let shares = mine.value_at(i);
            proof {
                assert(other@.maybe_shared.dom().contains(name@));
            }
            match other.maybe_shared_inputs.get(name.as_str()) {
                Some(theirs) => {
                    let same = match (shares, theirs) {
                        (
                            MaybeRep3ShareVecType::Replicated(_),
                            MaybeRep3ShareVecType::Replicated(_),
                        ) => true,
                        (
                            MaybeRep3ShareVecType::Additive(_),
                            MaybeRep3ShareVecType::Additive(_),
                        ) => true,
                        _ => false,
                    };
                    if !same {
                        return true;
                    }
                },
                None => {
                    assert(false);
                },
            }
            i += 1;
        }
        proof {
            mine.lemma_view();
            assert forall|k: Seq<char>|
                self@.maybe_shared.contains_key(k) && other@.maybe_shared.contains_key(
                    k,
                ) implies same_share_type(self@.maybe_shared[k], other@.maybe_shared[k]) by {
                let j = mine.names().index_of(k);
                assert(mine.names()[j] == k);
            }
        }
        false
    }

    /// Merges what two providers state into one input, or says why that
    /// cannot be done.
    pub fn merge(self, other: Self) -> (r: Result<Self, MergeError>)
        ensures
            match r {
                Ok(merged) => merge_error(self@, other@) is None && merged@ == merged_view(
                    self@,
                    other@,
                ),
                Err(e) => merge_error(self@, other@) == Some(e),
            },
    {
        if other.public_inputs.has_key_outside(&self.public_inputs) {
            return Err(MergeError::PublicInputMissing);
        }
        if public_inputs_mismatch(&self.public_inputs, &other.public_inputs) {
            return Err(MergeError::PublicInputMismatch);
        }
        proof {
            lemma_unions_disjoint(
                self@.maybe_public.dom(),
                other@.maybe_public.dom(),
                self@.public.dom(),
                other@.public.dom(),
            );
            lemma_unions_disjoint(
                self@.shared.dom(),
                other@.shared.dom(),
                self@.public.dom(),
                other@.public.dom(),
            );
            if self@.maybe_public.dom().disjoint(self@.public.dom()) {
                lemma_disjoint_from_part(
                    self@.maybe_public.dom(),
                    other@.public.dom(),
                    self@.public.dom(),
                );
            }
            if other@.maybe_public.dom().disjoint(self@.public.dom()) {
                lemma_disjoint_from_part(
                    other@.maybe_public.dom(),
                    other@.public.dom(),
                    self@.public.dom(),
                );
            }
            if self@.shared.dom().disjoint(self@.public.dom()) {
                lemma_disjoint_from_part(
                    self@.shared.dom(),
                    other@.public.dom(),
                    self@.public.dom(),
                );
            }
            if other@.shared.dom().disjoint(self@.public.dom()) {
                lemma_disjoint_from_part(
                    other@.shared.dom(),
                    other@.public.dom(),
                    self@.public.dom(),
                );
            }
        }
        if self.maybe_public_inputs.shares_key_with(&self.public_inputs)
            || other.maybe_public_inputs.shares_key_with(&self.public_inputs) {
            return Err(MergeError::PublicAndMaybePublic);
        }
        if self.maybe_public_inputs.has_key_outside(&other.maybe_public_inputs)
            || other.maybe_public_inputs.has_key_outside(&self.maybe_public_inputs) {
            return Err(MergeError::MaybePublicMissing);
        }
        assert(self@.maybe_public.dom() =~= other@.maybe_public.dom());
        let maybe_public_inputs = match self.merge_maybe_public(&other) {
            Some(merged) => merged,
            None => {
                return Err(MergeError::MaybePublicConflict);
            },
        };
        if other.shared_inputs.shares_key_with(&self.shared_inputs) {
            return Err(MergeError::SharedInputDuplicate);
        }
        if self.shared_inputs.shares_key_with(&self.public_inputs)
            || other.shared_inputs.shares_key_with(&self.public_inputs) {
            return Err(MergeError::SharedAndPublic);
        }
        if self.maybe_shared_inputs.has_key_outside(&other.maybe_shared_inputs)
            || other.maybe_shared_inputs.has_key_outside(&self.maybe_shared_inputs) {
            return Err(MergeError::MaybeSharedKeyMismatch);
        }
        assert(self@.maybe_shared.dom() =~= other@.maybe_shared.dom());
        if self.share_types_differ(&other) {
            return Err(MergeError::ShareTypeMismatch);
        }
        let maybe_shared_inputs = match self.merge_maybe_shared(&other) {
            Ok(merged) => merged,
            Err(e) => {
                return Err(e);
            },
        };
        let ghost a = self@;
        let ghost b = other@;
        let mut shared_inputs = self.shared_inputs;
        move_entries(&mut shared_inputs, other.shared_inputs);
        Ok(
            SerializeableSharedRep3Input {
                public_inputs: self.public_inputs,
                maybe_public_inputs,
                shared_inputs,
                maybe_shared_inputs,
            },
        )
    }
}

} // verus!
