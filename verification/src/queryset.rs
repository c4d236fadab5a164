//! Allowed-value sets over a closed enumeration, rendered as query pairs.

use crate::text::comma_joined;
use vstd::prelude::*;
use vstd::string::StringExecFns;

verus! {

/// A closed enumeration whose values can be filtered on.
///
/// The implementor lists every value of the type exactly once, so that a
/// [`QuerySet`] can tell when its allowed set has grown to cover the whole
/// enumeration.
pub trait QuerySetMember: Sized {
    /// Every value of the enumeration, in declaration order. An
    /// implementor says what it is; left alone, nothing is known of it.
    open spec fn universe() -> Seq<Self> {
        arbitrary()
    }

    /// The text that stands for this value in a query string. An
    /// implementor says what it is; left alone, nothing is known of it.
    open spec fn label(&self) -> Seq<char> {
        arbitrary()
    }

    /// Every value of the enumeration, in declaration order.
    fn all() -> (values: Vec<Self>)
        ensures
            values@ == Self::universe(),
    ;

    /// Whether two values are the same.
    fn same(&self, other: &Self) -> (equal: bool)
        ensures
            equal == (*self == *other),
    ;

    /// The text that stands for this value in a query string.
    fn to_string(&self) -> (text: String)
        ensures
            text@ == self.label(),
    ;
}

/// Whether the enumeration is closed: `universe` names each value once and
/// leaves none out.
pub open spec fn is_closed<Q: QuerySetMember>() -> bool {
    &&& Q::universe().no_duplicates()
    &&& forall|q: Q| Q::universe().contains(q)
}

/// In a closed enumeration, `universe` holds `value` and holds nothing
/// twice.
pub proof fn lemma_exact<Q: QuerySetMember>(value: Q)
    requires
        is_closed::<Q>(),
    ensures
        Q::universe().no_duplicates(),
        Q::universe().contains(value),
{
}

/// The values that `flags` marks, read against the enumeration order.
pub open spec fn marked<Q>(universe: Seq<Q>, flags: Seq<bool>) -> Set<Q> {
    Set::new(
        |q: Q|
            exists|i: int|
                0 <= i < universe.len() && i < flags.len() && #[trigger] flags[i] && universe[i]
                    == q,
    )
}

/// What a [`QuerySet`] stands for.
#[verifier::reject_recursive_types(Q)]
pub struct QuerySetView<Q> {
    /// The remote field that is filtered on.
    pub field_name: Seq<char>,
    /// `None` while no constraint was requested, else the exact allowed set.
    pub values: Option<Set<Q>>,
}

/// The allowed set after a request to allow `value`.
pub open spec fn including<Q>(values: Option<Set<Q>>, value: Q) -> Option<Set<Q>> {
    Some(
        match values {
            None => Set::<Q>::empty().insert(value),
            Some(allowed) => allowed.insert(value),
        },
    )
}

/// The allowed set after a request to leave `value` out.
pub open spec fn excluding<Q>(values: Option<Set<Q>>, value: Q) -> Option<Set<Q>> {
    Some(
        match values {
            None => Set::<Q>::full().remove(value),
            Some(allowed) => allowed.remove(value),
        },
    )
}

/// The allowed set after allowing each of `values` in turn.
pub open spec fn including_each<Q>(start: Option<Set<Q>>, values: Seq<Q>) -> Option<Set<Q>>
    decreases values.len(),
{
    if values.len() == 0 {
        start
    } else {
        including(including_each(start, values.drop_last()), values.last())
    }
}

/// The allowed set after leaving out each of `values` in turn.
pub open spec fn excluding_each<Q>(start: Option<Set<Q>>, values: Seq<Q>) -> Option<Set<Q>>
    decreases values.len(),
{
    if values.len() == 0 {
        start
    } else {
        excluding(excluding_each(start, values.drop_last()), values.last())
    }
}

/// Membership in `allowed`, as a predicate.
pub open spec fn allows<Q>(allowed: Set<Q>) -> spec_fn(Q) -> bool {
    |q: Q| allowed.contains(q)
}

/// The label of a value, as a function.
pub open spec fn label_of<Q: QuerySetMember>() -> spec_fn(Q) -> Seq<char> {
    |q: Q| q.label()
}

/// Whether `allowed` holds every value of its type.
pub open spec fn allows_all<Q>(allowed: Set<Q>) -> bool {
    forall|q: Q| allowed.contains(q)
}

/// The members of `allowed`, in the order of the enumeration.
pub open spec fn chosen<Q: QuerySetMember>(allowed: Set<Q>) -> Seq<Q> {
    Q::universe().filter(allows(allowed))
}

/// The query pair that stands for a set, if it needs one.
///
/// A set that was never constrained, or that allows every value, asks for
/// nothing. A single allowed value is matched directly. Any other set,
/// the empty one too, is matched through the `__in` form of the field, its
/// values joined by commas in the order of the enumeration.
pub open spec fn rendering<Q: QuerySetMember>(set: QuerySetView<Q>) -> Option<
    (Seq<char>, Seq<char>),
> {
    match set.values {
        None => None,
        Some(allowed) => {
            if allows_all(allowed) {
                None
            } else if chosen(allowed).len() == 1 {
                Some((set.field_name, chosen(allowed)[0].label()))
            } else {
                Some(
                    (
                        set.field_name + "__in"@,
                        comma_joined(chosen(allowed).map_values(label_of::<Q>())),
                    ),
                )
            }
        },
    }
}

/// An allowed set of values for one field of a result set.
pub struct QuerySet<Q: QuerySetMember> {
    members: Vec<Q>,
    flags: Option<Vec<bool>>,
    field_name: String,
}

impl<Q: QuerySetMember> View for QuerySet<Q> {
    type V = QuerySetView<Q>;

    closed spec fn view(&self) -> QuerySetView<Q> {
        QuerySetView {
            field_name: self.field_name@,
            values: match self.flags {
                None => None,
                Some(flags) => Some(marked(Q::universe(), flags@)),
            },
        }
    }
}

impl<Q: QuerySetMember> QuerySet<Q> {
    #[verifier::type_invariant]
    spec fn well_formed(&self) -> bool {
        &&& is_closed::<Q>()
        &&& self.members@ == Q::universe()
        &&& match self.flags {
            None => true,
            Some(flags) => flags@.len() == Q::universe().len(),
        }
    }

    /// A set for `field_name` that constrains nothing yet.
    pub fn new(field_name: String) -> (set: Self)
        requires
            is_closed::<Q>(),
        ensures
            set@.field_name == field_name@,
            set@.values is None,
    {
        QuerySet { members: Q::all(), flags: None, field_name }
    }

    /// Where `value` stands in the enumeration.
    fn position(&self, value: &Q) -> (index: usize)
        ensures
            index < Q::universe().len(),
            Q::universe()[index as int] == *value,
    {
        proof {
            use_type_invariant(self);
            lemma_exact::<Q>(*value);
        }
        let mut index: usize = 0;
        while index < self.members.len()
            invariant
                self.members@ == Q::universe(),
                index <= self.members@.len(),
                Q::universe().contains(*value),
                forall|j: int| 0 <= j < index ==> self.members@[j] != *value,
            ensures
                index < self.members@.len(),
                self.members@[index as int] == *value,
            decreases self.members@.len() - index,
        {
            if self.members[index].same(value) {
                break ;
            }
            index += 1;
        }
        index
    }

    /// Requests that `value` be allowed. The first constraint on a set
    /// narrows it to `value` alone; later ones add `value` to what is
    /// allowed already.
    pub fn include_value(&mut self, value: Q) -> (chain: &mut Self)
        ensures
            chain@.field_name == old(self)@.field_name,
            chain@.values == including(old(self)@.values, value),
            *final(self) == *final(chain),
    {
        proof {
            use_type_invariant(&*self);
        }
        let index = self.position(&value);
        let flags = match &self.flags {
            Some(flags) => with_flag(flags, index, true),
            None => with_flag(&blank(self.members.len(), false), index, true),
        };
        proof {
            match old(self).flags {
                Some(before) => {
                    lemma_mark(Q::universe(), before@, index as int);
                },
                None => {
                    let before = Seq::new(Q::universe().len(), |i: int| false);
                    assert(flags@ =~= before.update(index as int, true));
                    lemma_mark(Q::universe(), before, index as int);
                    lemma_blank_marks_nothing(Q::universe(), before);
                },
            }
        }
        self.flags = Some(flags);
        self
    }

    /// Requests that `value` be left out. On a set without a constraint
    /// this allows every value but `value`; later it removes `value` from
    /// what is allowed.
    pub fn exclude(&mut self, value: &Q) -> (chain: &mut Self)
        ensures
            chain@.field_name == old(self)@.field_name,
            chain@.values == excluding(old(self)@.values, *value),
            *final(self) == *final(chain),
    {
        proof {
            use_type_invariant(&*self);
        }
        let index = self.position(value);
        let flags = match &self.flags {
            Some(flags) => with_flag(flags, index, false),
            None => with_flag(&blank(self.members.len(), true), index, false),
        };
        proof {
            match old(self).flags {
                Some(before) => {
                    lemma_unmark(Q::universe(), before@, index as int);
                },
                None => {
                    let before = Seq::new(Q::universe().len(), |i: int| true);
                    assert(flags@ =~= before.update(index as int, false));
                    lemma_unmark(Q::universe(), before, index as int);
                    assert forall|q: Q| marked(Q::universe(), before).contains(q) by {
                        lemma_exact::<Q>(q);
                        let i = Q::universe().index_of(q);
                        assert(before[i]);
                    }
                    assert(marked(Q::universe(), before) =~= Set::<Q>::full());
                },
            }
        }
        self.flags = Some(flags);
        self
    }

    /// The key and value to add to a URL's query so that the server
    /// returns the allowed values only; `None` where nothing has to be
    /// added. The key is the field's name, or its `__in` form.
    pub fn query(&self) -> (pair: Option<(String, String)>)
        ensures
            match pair {
                Some((key, value)) => rendering(self@) == Some((key@, value@)),
                None => rendering(self@) is None,
            },
    {
        proof {
            use_type_invariant(self);
        }
        let flags = match &self.flags {
            Some(flags) => flags,
            None => {
                return None;
            },
        };
        let ghost allowed = marked(Q::universe(), flags@);
        let ghost keep = allows(allowed);
        let ghost name = label_of::<Q>();
        let mut joined = String::new();
        let mut count: usize = 0;
        let mut index: usize = 0;
        proof {
            reveal(Seq::filter);
            assert(Q::universe().take(0) =~= Seq::<Q>::empty());
            assert(Q::universe().take(0).filter(keep).map_values(name) =~= Seq::<
                Seq<char>,
            >::empty());
        }
        while index < self.members.len()
            invariant
                is_closed::<Q>(),
                self.members@ == Q::universe(),
                flags@.len() == Q::universe().len(),
                allowed == marked(Q::universe(), flags@),
                keep == allows(allowed),
                name == label_of::<Q>(),
                index <= Q::universe().len(),
                count <= index,
                count == Q::universe().take(index as int).filter(keep).len(),
                count == index <==> forall|j: int| 0 <= j < index ==> flags@[j],
                joined@ == comma_joined(
                    Q::universe().take(index as int).filter(keep).map_values(name),
                ),
            decreases Q::universe().len() - index,
        {
            let ghost before = Q::universe().take(index as int);
            let ghost after = Q::universe().take(index + 1);
            proof {
                reveal(Seq::filter);
                assert(after.drop_last() =~= before);
                assert(after.last() == Q::universe()[index as int]);
                lemma_marked_at(Q::universe(), flags@, index as int);
            }
            if flags[index] {
                let label = self.members[index].to_string();
                proof {
                    reveal_strlit(",");
                    let parts = before.filter(keep).map_values(name);
                    let more = after.filter(keep).map_values(name);
                    assert(more =~= parts.push(label@));
                    assert(more.drop_last() =~= parts);
                }
                if count > 0 {
                    joined.append(",");
                }
                joined.append(label.as_str());
                count += 1;
                assert(joined@ =~= comma_joined(after.filter(keep).map_values(name)));
            }
            index += 1;
        }
        proof {
            assert(Q::universe().take(index as int) =~= Q::universe());
            if count == index {
                assert forall|q: Q| allowed.contains(q) by {
                    lemma_exact::<Q>(q);
                    let i = Q::universe().index_of(q);
                    assert(flags@[i]);
                }
            } else {
                let j = choose|j: int| 0 <= j < index && !flags@[j];
                lemma_marked_at(Q::universe(), flags@, j);
                assert(!allowed.contains(Q::universe()[j]));
            }
        }
        if count == self.members.len() {
            None
        } else if count == 1 {
            assert(chosen(allowed).map_values(name)[0] == chosen(allowed)[0].label());
            Some((self.field_name.clone(), joined))
        } else {
            Some((self.field_name.clone().concat("__in"), joined))
        }
    }
}

/// A vector of `len` flags that all hold `value`.
fn blank(len: usize, value: bool) -> (flags: Vec<bool>)
    ensures
        flags@.len() == len,
        forall|i: int| 0 <= i < len ==> flags@[i] == value,
{
    let mut flags: Vec<bool> = Vec::new();
    while flags.len() < len
        invariant
            flags@.len() <= len,
            forall|i: int| 0 <= i < flags@.len() ==> flags@[i] == value,
        decreases len - flags@.len(),
    {
        flags.push(value);
    }
    flags
}

/// A copy of `flags` with the flag at `index` set to `value`.
fn with_flag(flags: &Vec<bool>, index: usize, value: bool) -> (changed: Vec<bool>)
    requires
        index < flags@.len(),
    ensures
        changed@ == flags@.update(index as int, value),
{
    let mut changed: Vec<bool> = Vec::new();
    let mut i: usize = 0;
    while i < flags.len()
        invariant
            i <= flags@.len(),
            index < flags@.len(),
            changed@.len() == i,
            forall|j: int| 0 <= j < i ==> changed@[j] == flags@.update(index as int, value)[j],
        decreases flags@.len() - i,
    {
        changed.push(if i == index { value } else { flags[i] });
        i += 1;
    }
    assert(changed@ =~= flags@.update(index as int, value));
    changed
}

/// Flags that are all down mark nothing.
proof fn lemma_blank_marks_nothing<Q>(universe: Seq<Q>, flags: Seq<bool>)
    requires
        forall|i: int| 0 <= i < flags.len() ==> !flags[i],
    ensures
        marked(universe, flags) == Set::<Q>::empty(),
{
    assert(marked(universe, flags) =~= Set::<Q>::empty());
}

/// Raising one flag adds the value at its place.
proof fn lemma_mark<Q>(universe: Seq<Q>, flags: Seq<bool>, index: int)
    requires
        flags.len() == universe.len(),
        0 <= index < universe.len(),
    ensures
        marked(universe, flags.update(index, true)) == marked(universe, flags).insert(
            universe[index],
        ),
{
    let raised = flags.update(index, true);
    assert forall|q: Q|
        marked(universe, raised).contains(q) == marked(universe, flags).insert(
            universe[index],
        ).contains(q) by {
        if marked(universe, raised).contains(q) {
            let i = choose|i: int|
                0 <= i < universe.len() && i < raised.len() && #[trigger] raised[i] && universe[i]
                    == q;
            if i != index {
                assert(flags[i]);
            }
        }
        if marked(universe, flags).contains(q) {
            let i = choose|i: int|
                0 <= i < universe.len() && i < flags.len() && #[trigger] flags[i] && universe[i]
                    == q;
            assert(raised[i]);
        }
        if q == universe[index] {
            assert(raised[index]);
        }
    }
    assert(marked(universe, raised) =~= marked(universe, flags).insert(universe[index]));
}

/// Where no value stands twice, a flag tells whether its value is marked.
proof fn lemma_marked_at<Q>(universe: Seq<Q>, flags: Seq<bool>, index: int)
    requires
        universe.no_duplicates(),
        flags.len() == universe.len(),
        0 <= index < universe.len(),
    ensures
        marked(universe, flags).contains(universe[index]) == flags[index],
{
    if marked(universe, flags).contains(universe[index]) {
        let i = choose|i: int|
            0 <= i < universe.len() && i < flags.len() && #[trigger] flags[i] && universe[i]
                == universe[index];
        assert(i == index);
    }
}

/// Where no value stands twice, lowering one flag takes out the value at
/// its place and nothing else.
proof fn lemma_unmark<Q>(universe: Seq<Q>, flags: Seq<bool>, index: int)
    requires
        universe.no_duplicates(),
        flags.len() == universe.len(),
        0 <= index < universe.len(),
    ensures
        marked(universe, flags.update(index, false)) == marked(universe, flags).remove(
            universe[index],
        ),
{
    let lowered = flags.update(index, false);
    assert forall|q: Q|
        marked(universe, lowered).contains(q) == marked(universe, flags).remove(
            universe[index],
        ).contains(q) by {
        if marked(universe, lowered).contains(q) {
            let i = choose|i: int|
                0 <= i < universe.len() && i < lowered.len() && #[trigger] lowered[i] && universe[i]
                    == q;
            assert(flags[i]);
        }
        if marked(universe, flags).contains(q) && q != universe[index] {
            let i = choose|i: int|
                0 <= i < universe.len() && i < flags.len() && #[trigger] flags[i] && universe[i]
                    == q;
            assert(lowered[i]);
        }
    }
    assert(marked(universe, lowered) =~= marked(universe, flags).remove(universe[index]));
}

/// Filtering a sequence without repetitions keeps exactly the values that
/// pass, each once.
proof fn lemma_filter_exact<Q>(values: Seq<Q>, keep: spec_fn(Q) -> bool)
    requires
        values.no_duplicates(),
    ensures
        values.filter(keep).no_duplicates(),
        forall|q: Q| #[trigger] values.filter(keep).contains(q) <==> values.contains(q) && keep(q),
    decreases values.len(),
{
    reveal(Seq::filter);
    if values.len() > 0 {
        let front = values.drop_last();
        let last = values.last();
        lemma_filter_exact(front, keep);
        let kept = front.filter(keep);
        assert forall|q: Q| #[trigger]
            values.filter(keep).contains(q) <==> values.contains(q) && keep(q) by {
            if values.contains(q) && keep(q) {
                let i = values.index_of(q);
                if i < values.len() - 1 {
                    assert(front[i] == q);
                    assert(kept.contains(q));
                    let j = kept.index_of(q);
                    assert(values.filter(keep)[j] == q);
                } else {
                    assert(values.filter(keep).last() == q);
                }
            }
            if values.filter(keep).contains(q) {
                let j = values.filter(keep).index_of(q);
                if j < kept.len() {
                    assert(kept[j] == q);
                    assert(kept.contains(q));
                    let i = front.index_of(q);
                    assert(values[i] == q);
                } else {
                    assert(q == last);
                    assert(values[values.len() - 1] == q);
                }
            }
        }
        if keep(last) {
            assert forall|i: int, j: int|
                0 <= i < kept.len() + 1 && 0 <= j < kept.len() + 1 && i != j implies kept.push(
                last,
            )[i] != kept.push(last)[j] by {
                if i == kept.len() {
                    assert(kept.contains(kept[j]));
                    assert(front.contains(kept[j]));
                    let k = front.index_of(kept[j]);
                    assert(values[k] == kept[j]);
                } else if j == kept.len() {
                    assert(kept.contains(kept[i]));
                    assert(front.contains(kept[i]));
                    let k = front.index_of(kept[i]);
                    assert(values[k] == kept[i]);
                }
            }
        }
    } else {
        assert forall|q: Q| #[trigger]
            values.filter(keep).contains(q) <==> values.contains(q) && keep(q) by {}
    }
}

/// The chosen values are the allowed ones, each once.
pub proof fn lemma_chosen_exact<Q: QuerySetMember>(allowed: Set<Q>)
    requires
        is_closed::<Q>(),
    ensures
        chosen(allowed).no_duplicates(),
        forall|q: Q| #[trigger] chosen(allowed).contains(q) <==> allowed.contains(q),
{
    lemma_filter_exact(Q::universe(), allows(allowed));
}

/// A set that allows every value renders like a set without a constraint:
/// it asks for no query pair.
pub proof fn lemma_full_set_renders_nothing<Q: QuerySetMember>(field_name: Seq<char>)
    ensures
        rendering(QuerySetView::<Q> { field_name, values: Some(Set::full()) }) is None,
        rendering(QuerySetView::<Q> { field_name, values: None }) is None,
{
}

/// Allowing every value of the enumeration, one at a time and in any
/// order, ends with a set that asks for no query pair.
pub proof fn lemma_including_all_renders_nothing<Q: QuerySetMember>(
    field_name: Seq<char>,
    values: Seq<Q>,
)
    requires
        is_closed::<Q>(),
        forall|q: Q| values.contains(q),
    ensures
        rendering(QuerySetView::<Q> { field_name, values: including_each(None, values) }) is None,
{
    lemma_including_each(values);
    if values.len() > 0 {
        let allowed = including_each(None, values)->Some_0;
        assert forall|q: Q| allowed.contains(q) by {
            assert(values.contains(q));
        }
    }
}

/// Allowing each of `values` in turn, from no constraint, allows exactly
/// those values.
proof fn lemma_including_each<Q>(values: Seq<Q>)
    ensures
        values.len() == 0 ==> including_each(None, values) is None,
        values.len() > 0 ==> including_each(None, values) == Some(values.to_set()),
    decreases values.len(),
{
    if values.len() > 0 {
        let front = values.drop_last();
        lemma_including_each(front);
        let result = including_each(None, values)->Some_0;
        assert forall|q: Q| result.contains(q) <==> values.to_set().contains(q) by {
            if values.contains(q) {
                let i = values.index_of(q);
                if i < front.len() {
                    assert(front[i] == q);
                    assert(front.contains(q));
                }
            }
            if front.contains(q) {
                let i = front.index_of(q);
                assert(values[i] == q);
            }
            if q == values.last() {
                assert(values[values.len() - 1] == q);
            }
        }
        assert(result =~= values.to_set());
    }
}

/// Leaving out each of `values` in turn, from no constraint, allows exactly
/// the values that are not among them.
proof fn lemma_excluding_each<Q>(values: Seq<Q>)
    ensures
        values.len() == 0 ==> excluding_each(None, values) is None,
        values.len() > 0 ==> excluding_each(None, values) == Some(
            Set::<Q>::new(|q: Q| !values.contains(q)),
        ),
    decreases values.len(),
{
    if values.len() > 0 {
        let front = values.drop_last();
        lemma_excluding_each(front);
        let result = excluding_each(None, values)->Some_0;
        let expected = Set::<Q>::new(|q: Q| !values.contains(q));
        assert forall|q: Q| result.contains(q) <==> expected.contains(q) by {
            if values.contains(q) {
                let i = values.index_of(q);
                if i < front.len() {
                    assert(front[i] == q);
                    assert(front.contains(q));
                }
            }
            if front.contains(q) {
                let i = front.index_of(q);
                assert(values[i] == q);
            }
            if q == values.last() {
                assert(values[values.len() - 1] == q);
            }
        }
        assert(result =~= expected);
    }
}

/// Leaving out every value of the enumeration, one at a time and in any
/// order, ends with the empty set, which asks for the `__in` form of the
/// field with no value. An enumeration without values has nothing to leave
/// out, and is not spoken of.
pub proof fn lemma_excluding_all_renders_empty<Q: QuerySetMember>(
    field_name: Seq<char>,
    values: Seq<Q>,
)
    requires
        is_closed::<Q>(),
        values.len() > 0,
        forall|q: Q| values.contains(q),
    ensures
        rendering(QuerySetView::<Q> { field_name, values: excluding_each(None, values) }) == Some(
            (field_name + "__in"@, Seq::<char>::empty()),
        ),
{
    lemma_excluding_each(values);
    let allowed = excluding_each(None, values)->Some_0;
    assert(allowed =~= Set::<Q>::empty()) by {
        assert forall|q: Q| !allowed.contains(q) by {
            assert(values.contains(q));
        }
    }
    lemma_exact::<Q>(values[0]);
    lemma_renders_empty::<Q>(field_name);
}

/// The empty set asks for the `__in` form of the field with no value.
pub proof fn lemma_renders_empty<Q: QuerySetMember>(field_name: Seq<char>)
    requires
        is_closed::<Q>(),
        Q::universe().len() > 0,
    ensures
        rendering(QuerySetView::<Q> { field_name, values: Some(Set::empty()) }) == Some(
            (field_name + "__in"@, Seq::<char>::empty()),
        ),
{
    let allowed = Set::<Q>::empty();
    lemma_chosen_exact(allowed);
    let picked = chosen(allowed);
    if picked.len() > 0 {
        assert(picked.contains(picked[0]));
    }
    assert(!allowed.contains(Q::universe()[0]));
    assert(picked.len() == 0);
    let parts = picked.map_values(label_of::<Q>());
    assert(parts.len() == 0);
    assert(comma_joined(parts) =~= Seq::<char>::empty());
    let set = QuerySetView::<Q> { field_name, values: Some(allowed) };
    assert(!allows_all(allowed));
    assert(chosen(allowed).len() != 1);
    assert(rendering(set) == Some((field_name + "__in"@, comma_joined(parts))));
}

/// In an enumeration of two values or more, allowing `value` alone asks
/// for the field to equal it.
pub proof fn lemma_single_value_renders_equality<Q: QuerySetMember>(
    field_name: Seq<char>,
    value: Q,
)
    requires
        is_closed::<Q>(),
        Q::universe().len() >= 2,
    ensures
        rendering(QuerySetView::<Q> { field_name, values: including(None, value) }) == Some(
            (field_name, value.label()),
        ),
{
    let allowed = including(None, value)->Some_0;
    lemma_chosen_exact(allowed);
    let picked = chosen(allowed);
    assert(picked.contains(value));
    if picked.len() >= 2 {
        assert(picked.contains(picked[0]));
        assert(picked.contains(picked[1]));
    }
    assert(picked.len() == 1);
    assert(picked.contains(picked[0]));
    let other = if Q::universe()[0] == value {
        Q::universe()[1]
    } else {
        Q::universe()[0]
    };
    assert(!allowed.contains(other));
}

/// In an enumeration of three values or more, allowing two different
/// values asks for the `__in` form of the field with exactly these two,
/// in the order of the enumeration.
pub proof fn lemma_two_values_render_in<Q: QuerySetMember>(field_name: Seq<char>, x: Q, y: Q)
    requires
        is_closed::<Q>(),
        x != y,
        Q::universe().len() >= 3,
    ensures
        ({
            let set = QuerySetView::<Q> { field_name, values: including(including(None, x), y) };
            ||| rendering(set) == Some(
                (field_name + "__in"@, x.label() + seq![','] + y.label()),
            )
            ||| rendering(set) == Some((field_name + "__in"@, y.label() + seq![','] + x.label()))
        }),
{
    let allowed = including(including(None, x), y)->Some_0;
    lemma_chosen_exact(allowed);
    let picked = chosen(allowed);
    assert(picked.contains(x));
    assert(picked.contains(y));
    let ix = picked.index_of(x);
    let iy = picked.index_of(y);
    if picked.len() >= 3 {
        assert(picked.contains(picked[0]));
        assert(picked.contains(picked[1]));
        assert(picked.contains(picked[2]));
    }
    assert(picked.len() == 2);
    assert(picked.contains(picked[0]));
    assert(picked.contains(picked[1]));
    let all = Q::universe();
    let other = if all[0] != x && all[0] != y {
        all[0]
    } else if all[1] != x && all[1] != y {
        all[1]
    } else {
        all[2]
    };
    assert(!allowed.contains(other));
    let parts = picked.map_values(label_of::<Q>());
    assert(parts.len() == 2);
    assert(parts.drop_last().len() == 1);
    assert(comma_joined(parts.drop_last()) == parts.drop_last()[0]);
    assert(comma_joined(parts) == parts[0] + seq![','] + parts[1]);
}

/// Leaving a value out and then allowing it again allows everything, so
/// no query pair is asked for.
pub proof fn lemma_exclude_then_allow<Q: QuerySetMember>(field_name: Seq<char>, value: Q)
    ensures
        including(excluding(None, value), value) == Some(Set::<Q>::full()),
        rendering(
            QuerySetView::<Q> { field_name, values: including(excluding(None, value), value) },
        ) is None,
{
    let allowed = including(excluding(None, value), value)->Some_0;
    assert(allowed =~= Set::<Q>::full());
}

/// Allowing a value alone and then leaving it out allows nothing, which
/// asks for the `__in` form of the field with no value.
pub proof fn lemma_allow_then_exclude<Q: QuerySetMember>(field_name: Seq<char>, value: Q)
    requires
        is_closed::<Q>(),
    ensures
        excluding(including(None, value), value) == Some(Set::<Q>::empty()),
        rendering(
            QuerySetView::<Q> { field_name, values: excluding(including(None, value), value) },
        ) == Some((field_name + "__in"@, Seq::<char>::empty())),
{
    let allowed = excluding(including(None, value), value)->Some_0;
    assert(allowed =~= Set::<Q>::empty());
    lemma_exact::<Q>(value);
    lemma_renders_empty::<Q>(field_name);
}

} // verus!
