//! What a builder does when it runs: which values it holds after its
//! constructor and its setters, and which values its terminal operation
//! hands to the annotated function.
//!
//! The values are of any one type `V`; what evaluates a default is a
//! function from the index of the optional field to its value.

use vstd::prelude::*;
use crate::arguments::{
    is_optional, is_required, optional_fields, order_of, required_fields, slot_fits, Field, Param,
    Slot,
};
use crate::seqs::{lemma_filter_none, lemma_filter_step, lemma_take_step};
use crate::builder::Builder;
use crate::syntax::same_text;

verus! {

/// The values that a builder holds.
#[derive(Clone, Debug, PartialEq, Eq)]
pub struct Chain<V> {
    pub receiver: Option<V>,
    /// The value of each required field.
    pub required: Vec<V>,
    /// For each optional field, the value that a setter gave it, if any.
    pub optional: Vec<Option<V>>,
}

/// The values that a terminal operation has bound when it calls the inner
/// function.
#[derive(Clone, Debug, PartialEq, Eq)]
pub struct Bound<V> {
    pub receiver: Option<V>,
    pub required: Vec<V>,
    /// The value of each optional field: what a setter gave it, or else its
    /// default.
    pub optional: Vec<V>,
}

/// `n` optional fields of which none is set.
pub open spec fn unset<V>(n: nat) -> Seq<Option<V>> {
    Seq::new(n, |i: int| None)
}

/// The index of the optional field that the setter `name` sets: the
/// first with that name.
pub open spec fn setter_of(optional: Seq<Field>, name: Seq<char>) -> Option<int>
    decreases optional.len(),
{
    if optional.len() == 0 {
        None
    } else if optional.first().ident@ == name {
        Some(0)
    } else {
        match setter_of(optional.drop_first(), name) {
            Some(j) => Some(j + 1),
            None => None,
        }
    }
}

/// The optional fields after the setter of the field `j` is called with `v`.
pub open spec fn set_field<V>(optional: Seq<Option<V>>, j: int, v: V) -> Seq<Option<V>> {
    if 0 <= j < optional.len() {
        optional.update(j, Some(v))
    } else {
        optional
    }
}

/// The optional fields after the setters `calls` are called one after the
/// other, each with the index of its field and a value.
pub open spec fn after<V>(optional: Seq<Option<V>>, calls: Seq<(int, V)>) -> Seq<Option<V>>
    decreases calls.len(),
{
    if calls.len() == 0 {
        optional
    } else {
        set_field(after(optional, calls.drop_last()), calls.last().0, calls.last().1)
    }
}

/// Whether `v` is what the terminal operation binds for an optional field
/// with the index `j` that holds `stored`: the stored value, or else a value
/// of its default.
pub open spec fn resolves<V, F: Fn(usize) -> V>(
    stored: Option<V>,
    default: F,
    j: int,
    v: V,
) -> bool {
    match stored {
        Some(s) => v == s,
        None => call_ensures(default, (j as usize,), v),
    }
}

impl Builder {
    /// Whether the constructor takes this receiver and these values.
    pub open spec fn takes<V>(self, receiver: Option<V>, required: Seq<V>) -> bool {
        (receiver is Some <==> self.receiver_field is Some) && required.len()
            == self.required_fields@.len()
    }

    /// The index of the optional field that the setter `name` sets.
    pub fn setter(&self, name: &str) -> (r: Option<usize>)
        ensures
            match r {
                Some(j) => setter_of(self.optional_fields@, name@) == Some(j as int),
                None => setter_of(self.optional_fields@, name@) is None,
            },
    {
        let mut i: usize = 0;
        let ghost all = self.optional_fields@;
        assert(all.skip(0) =~= all);
        while i < self.optional_fields.len()
            invariant
                i <= self.optional_fields.len(),
                all == self.optional_fields@,
                setter_of(all, name@) == match setter_of(all.skip(i as int), name@) {
                    Some(j) => Some(j + i),
                    None => None,
                },
            decreases self.optional_fields.len() - i,
        {
            proof {
                assert(all.skip(i as int).drop_first() =~= all.skip(i + 1));
            }
            if same_text(self.optional_fields[i].ident.as_str(), name) {
                return Some(i);
            }
            i += 1;
        }
        None
    }

    /// What the constructor makes of a receiver and the values of the
    /// required parameters: a builder with no optional field set. There is
    /// none where the receiver or the number of values does not fit.
    pub fn construct<V>(&self, receiver: Option<V>, required: Vec<V>) -> (r: Option<Chain<V>>)
        ensures
            match r {
                Some(chain) => self.takes(receiver, required@) && chain.receiver == receiver
                    && chain.required == required && chain.optional@ == unset::<V>(
                    self.optional_fields@.len(),
                ),
                None => !self.takes(receiver, required@),
            },
    {
        if receiver.is_some() != self.receiver_field.is_some() || required.len()
            != self.required_fields.len() {
            return None;
        }
        let mut optional: Vec<Option<V>> = Vec::new();
        while optional.len() < self.optional_fields.len()
            invariant
                optional@.len() <= self.optional_fields@.len(),
                optional@ == unset::<V>(optional@.len()),
            decreases self.optional_fields.len() - optional.len(),
        {
            optional.push(None);
            proof {
                assert(optional@ =~= unset::<V>(optional@.len()));
            }
        }
        Some(Chain { receiver, required, optional })
    }

    /// What the setter `name` makes of a builder and a value: the builder
    /// with that value in the field, whatever it held. There is none where
    /// no optional field has that name, or where the builder has no such field.
    pub fn set<V>(&self, chain: Chain<V>, name: &str, value: V) -> (r: Option<Chain<V>>)
        ensures
            match setter_of(self.optional_fields@, name@) {
                Some(j) => if j < chain.optional@.len() {
                    r is Some && r->0.receiver == chain.receiver && r->0.required
                        == chain.required && r->0.optional@ == set_field(
                        chain.optional@,
                        j,
                        value,
                    )
                } else {
                    r is None
                },
                None => r is None,
            },
    {
        match self.setter(name) {
            Some(j) => {
                proof {
                    lemma_setter_of(self.optional_fields@, name@);
                }
                if j < chain.optional.len() {
                    let mut chain = chain;
                    chain.optional[j] = Some(value);
                    Some(chain)
                } else {
                    None
                }
            },
            None => None,
        }
    }
}

/// The setter of `name` sets a field that has that name, and no field
/// before it has it.
pub proof fn lemma_setter_of(optional: Seq<Field>, name: Seq<char>)
    ensures
        match setter_of(optional, name) {
            Some(j) => 0 <= j < optional.len() && optional[j].ident@ == name && forall|i: int|
                0 <= i < j ==> (#[trigger] optional[i]).ident@ != name,
            None => forall|i: int|
                0 <= i < optional.len() ==> (#[trigger] optional[i]).ident@ != name,
        },
    decreases optional.len(),
{
    if optional.len() > 0 && optional.first().ident@ != name {
        lemma_setter_of(optional.drop_first(), name);
        let rest = optional.drop_first();
        match setter_of(rest, name) {
            Some(j) => {
                assert(optional[j + 1] == rest[j]);
                assert forall|i: int| 0 <= i < j + 1 implies (#[trigger] optional[i]).ident@
                    != name by {
                    if i > 0 {
                        assert(optional[i] == rest[i - 1]);
                    }
                }
            },
            None => {
                assert forall|i: int| 0 <= i < optional.len() implies (
                #[trigger] optional[i]).ident@ != name by {
                    if i > 0 {
                        assert(optional[i] == rest[i - 1]);
                    }
                }
            },
        }
    }
}

impl<V> Chain<V> {
    /// What the terminal operation binds: the receiver and the required
    /// values as they are stored, and for each optional field the stored
    /// value or, where none is stored, what `default` gives for its index.
    /// The defaults are evaluated in the order of the fields, each at most
    /// once, and none for a field that is set.
    pub fn finish<F: Fn(usize) -> V>(self, default: F) -> (r: Bound<V>)
        requires
            forall|j: usize| j < self.optional@.len() ==> call_requires(default, (j,)),
        ensures
            r.receiver == self.receiver,
            r.required == self.required,
            r.optional@.len() == self.optional@.len(),
            forall|j: int|
                0 <= j < self.optional@.len() ==> resolves(
                    self.optional@[j],
                    default,
                    j,
                    #[trigger] r.optional@[j],
                ),
    {
        let Chain { receiver, required, optional } = self;
        let ghost stored = optional@;
        let mut rest = optional;
        let mut stack: Vec<Option<V>> = Vec::new();
        while rest.len() > 0
            invariant
                rest@ == stored.take(rest@.len() as int),
                rest@.len() <= stored.len(),
                stack@.len() + rest@.len() == stored.len(),
                forall|k: int|
                    0 <= k < stack@.len() ==> (#[trigger] stack@[k]) == stored[stored.len() - 1
                        - k],
            decreases rest.len(),
        {
            let last = rest.pop().unwrap();
            stack.push(last);
        }
        let ghost turned = stack@;
        let mut bound: Vec<V> = Vec::new();
        while stack.len() > 0
            invariant
                turned.len() == stored.len(),
                forall|k: int|
                    0 <= k < turned.len() ==> (#[trigger] turned[k]) == stored[stored.len() - 1
                        - k],
                stack@ == turned.take(stack@.len() as int),
                stack@.len() <= turned.len(),
                bound@.len() + stack@.len() == stored.len(),
                forall|j: usize| j < stored.len() ==> call_requires(default, (j,)),
                forall|j: int|
                    0 <= j < bound@.len() ==> resolves(stored[j], default, j, #[trigger] bound@[j]),
            decreases stack.len(),
        {
            let j: usize = bound.len();
            let held = stack.pop().unwrap();
            assert(held == stored[j as int]);
            let value = match held {
                Some(value) => value,
                None => default(j),
            };
            bound.push(value);
        }
        Bound { receiver, required, optional: bound }
    }
}

impl<V> Bound<V> {
    /// The value that stands in `slot`.
    pub open spec fn at(self, slot: Slot) -> V {
        match slot {
            Slot::Required(i) => self.required@[i as int],
            Slot::Optional(j) => self.optional@[j as int],
        }
    }

    /// Whether `slot` names one of the values.
    pub open spec fn has(self, slot: Slot) -> bool {
        match slot {
            Slot::Required(i) => i < self.required@.len(),
            Slot::Optional(j) => j < self.optional@.len(),
        }
    }

    /// The arguments of the call of the inner function behind the receiver: for
    /// each parameter, in the order of the declaration, the value in its slot.
    pub open spec fn arguments(self, order: Seq<Slot>) -> Seq<V> {
        Seq::new(order.len(), |k: int| self.at(order[k]))
    }

    /// What the inner function is called with: the receiver, and behind it
    /// the value of each parameter in the order of the declaration. There is
    /// no call where `order` does not take the values in turn.
    pub fn into_call(self, order: &Vec<Slot>) -> (r: Option<(Option<V>, Vec<V>)>)
        ensures
            match r {
                Some(call) => takes_in_turn(
                    order@,
                    self.required@.len(),
                    self.optional@.len(),
                ) && call.0 == self.receiver && call.1@ == self.arguments(order@),
                None => !takes_in_turn(order@, self.required@.len(), self.optional@.len()),
            },
    {
        let ghost slots = order@;
        let ghost required = self.required@;
        let ghost optional = self.optional@;
        let Bound { receiver, required: all_required, optional: all_optional } = self;
        let mut required_left = turned(all_required);
        let mut optional_left = turned(all_optional);
        let mut required_taken: usize = 0;
        let mut optional_taken: usize = 0;
        let mut args: Vec<V> = Vec::new();
        let mut k: usize = 0;
        proof {
            lemma_filter_none(slots, is_required_slot());
            lemma_filter_none(slots, is_optional_slot());
        }
        while k < order.len()
            invariant
                k <= order.len(),
                slots == order@,
                required == self.required@,
                optional == self.optional@,
                required_taken == slots.take(k as int).filter(is_required_slot()).len(),
                optional_taken == slots.take(k as int).filter(is_optional_slot()).len(),
                required_left@.len() + required_taken == required.len(),
                optional_left@.len() + optional_taken == optional.len(),
                forall|i: int|
                    0 <= i < required_left@.len() ==> (#[trigger] required_left@[i])
                        == required[required.len() - 1 - i],
                forall|i: int|
                    0 <= i < optional_left@.len() ==> (#[trigger] optional_left@[i])
                        == optional[optional.len() - 1 - i],
                args@.len() == k,
                forall|i: int| 0 <= i < k ==> is_taken(slots, i, required.len(), optional.len()),
                forall|i: int| 0 <= i < k ==> (#[trigger] args@[i]) == self.at(slots[i]),
            decreases order.len() - k,
        {
            proof {
                lemma_filter_step(slots, is_required_slot(), k as int);
                lemma_filter_step(slots, is_optional_slot(), k as int);
            }
            let taken = match order[k] {
                Slot::Required(i) => if required_left.len() > 0 && i == required_taken {
                    assert(required_left@[required_left@.len() - 1] == required[i as int]);
                    required_taken += 1;
                    required_left.pop()
                } else {
                    None
                },
                Slot::Optional(j) => if optional_left.len() > 0 && j == optional_taken {
                    assert(optional_left@[optional_left@.len() - 1] == optional[j as int]);
                    optional_taken += 1;
                    optional_left.pop()
                } else {
                    None
                },
            };
            match taken {
                Some(value) => {
                    assert(is_taken(slots, k as int, required.len(), optional.len()));
                    assert(value == self.at(slots[k as int]));
                    args.push(value);
                },
                None => {
                    assert(!is_taken(slots, k as int, required.len(), optional.len()));
                    return None;
                },
            }
            k += 1;
        }
        proof {
            assert(args@ =~= self.arguments(slots));
        }
        Some((receiver, args))
    }

    /// The value that stands in `slot`, if it names one.
    pub fn argument(&self, slot: Slot) -> (r: Option<&V>)
        ensures
            match r {
                Some(v) => self.has(slot) && *v == self.at(slot),
                None => !self.has(slot),
            },
    {
        match slot {
            Slot::Required(i) => if i < self.required.len() {
                Some(&self.required[i])
            } else {
                None
            },
            Slot::Optional(j) => if j < self.optional.len() {
                Some(&self.optional[j])
            } else {
                None
            },
        }
    }
}

/// Whether a slot is one of the required fields.
pub open spec fn is_required_slot() -> spec_fn(Slot) -> bool {
    |slot: Slot| slot is Required
}

/// Whether a slot is one of the optional fields.
pub open spec fn is_optional_slot() -> spec_fn(Slot) -> bool {
    |slot: Slot| slot is Optional
}

/// Whether the slot of `order` with the index `k` is the next of its
/// group: behind the slots of the group that stand before it.
pub open spec fn is_next(order: Seq<Slot>, k: int) -> bool {
    match order[k] {
        Slot::Required(i) => i == order.take(k).filter(is_required_slot()).len(),
        Slot::Optional(j) => j == order.take(k).filter(is_optional_slot()).len(),
    }
}

/// Whether `order` takes the values of fields in turn: each slot is the
/// next of its group, and names one of `required` or `optional` fields.
pub open spec fn takes_in_turn(order: Seq<Slot>, required: nat, optional: nat) -> bool {
    forall|k: int| 0 <= k < order.len() ==> is_taken(order, k, required, optional)
}

/// Whether the slot of `order` with the index `k` is the next of its group
/// and names one of `required` or `optional` fields.
pub open spec fn is_taken(order: Seq<Slot>, k: int, required: nat, optional: nat) -> bool {
    is_next(order, k) && slot_fits(order[k], required, optional)
}

/// The values of `v` from the last to the first.
fn turned<V>(v: Vec<V>) -> (r: Vec<V>)
    ensures
        r@.len() == v@.len(),
        forall|i: int| 0 <= i < r@.len() ==> (#[trigger] r@[i]) == v@[v@.len() - 1 - i],
{
    let mut rest = v;
    let mut r: Vec<V> = Vec::new();
    while rest.len() > 0
        invariant
            rest@ == v@.take(rest@.len() as int),
            rest@.len() <= v@.len(),
            r@.len() + rest@.len() == v@.len(),
            forall|i: int| 0 <= i < r@.len() ==> (#[trigger] r@[i]) == v@[v@.len() - 1 - i],
        decreases rest.len(),
    {
        let last = rest.pop().unwrap();
        r.push(last);
    }
    r
}

/// Among the first `k` slots of the order of `ps` there are as many of each
/// group as there are parameters of that group among the first `k` of `ps`.
pub proof fn lemma_slots_count_parameters(ps: Seq<Param>, k: int)
    requires
        0 <= k <= ps.len(),
    ensures
        order_of(ps).take(k).filter(is_required_slot()).len() == ps.take(k).filter(
            is_required(),
        ).len(),
        order_of(ps).take(k).filter(is_optional_slot()).len() == ps.take(k).filter(
            is_optional(),
        ).len(),
    decreases k,
{
    if k == 0 {
        lemma_filter_none(order_of(ps), is_required_slot());
        lemma_filter_none(order_of(ps), is_optional_slot());
        lemma_filter_none(ps, is_required());
        lemma_filter_none(ps, is_optional());
    } else {
        lemma_slots_count_parameters(ps, k - 1);
        lemma_filter_step(order_of(ps), is_required_slot(), k - 1);
        lemma_filter_step(order_of(ps), is_optional_slot(), k - 1);
        lemma_filter_step(ps, is_required(), k - 1);
        lemma_filter_step(ps, is_optional(), k - 1);
        lemma_take_step(ps, k - 1);
    }
}

/// The order of a declaration takes the values of the fields of its
/// builder in turn, so that the terminal operation has a call, and the
/// call hands over the value of each parameter in its place.
pub proof fn law_order_takes_in_turn(ps: Seq<Param>)
    requires
        ps.len() <= usize::MAX,
    ensures
        takes_in_turn(order_of(ps), required_fields(ps).len(), optional_fields(ps).len()),
{
    assert forall|k: int| 0 <= k < order_of(ps).len() implies is_taken(
        order_of(ps),
        k,
        required_fields(ps).len(),
        optional_fields(ps).len(),
    ) by {
        lemma_slots_count_parameters(ps, k);
        lemma_take_step(ps, k);
        crate::arguments::law_order_names_each_parameter(ps, k);
        ps.take(k).lemma_filter_len(is_required());
        ps.take(k).lemma_filter_len(is_optional());
    }
}

/// A field whose setter is not called holds nothing after any calls of
/// other setters, so that the terminal operation binds a value of its default.
pub proof fn law_default_resolution<V, F: Fn(usize) -> V>(
    n: nat,
    calls: Seq<(int, V)>,
    j: int,
    default: F,
    v: V,
)
    requires
        0 <= j < n,
        forall|k: int| 0 <= k < calls.len() ==> (#[trigger] calls[k]).0 != j,
    ensures
        after(unset::<V>(n), calls).len() == n,
        after(unset::<V>(n), calls)[j] is None,
        resolves(after(unset::<V>(n), calls)[j], default, j, v) <==> call_ensures(
            default,
            (j as usize,),
            v,
        ),
{
    lemma_after_keeps(unset::<V>(n), calls, j);
}

/// A field whose setter is called with `v` holds `v` after any calls of
/// other setters, so that the terminal operation binds `v`.
pub proof fn law_override<V, F: Fn(usize) -> V>(
    optional: Seq<Option<V>>,
    j: int,
    v: V,
    calls: Seq<(int, V)>,
    default: F,
    bound: V,
)
    requires
        0 <= j < optional.len(),
        forall|k: int| 0 <= k < calls.len() ==> (#[trigger] calls[k]).0 != j,
    ensures
        after(set_field(optional, j, v), calls)[j] == Some(v),
        resolves(after(set_field(optional, j, v), calls)[j], default, j, bound) <==> bound == v,
{
    lemma_after_keeps(set_field(optional, j, v), calls, j);
}

/// The setters of two fields that are not the same can be called in either
/// order: the builder holds the same values.
pub proof fn law_setters_commute<V>(optional: Seq<Option<V>>, i: int, v: V, j: int, w: V)
    requires
        i != j,
    ensures
        set_field(set_field(optional, i, v), j, w) == set_field(set_field(optional, j, w), i, v),
{
    assert(set_field(set_field(optional, i, v), j, w) =~= set_field(
        set_field(optional, j, w),
        i,
        v,
    ));
}

/// Of two calls of one setter the second counts.
pub proof fn law_last_setter_wins<V>(optional: Seq<Option<V>>, j: int, v: V, w: V)
    ensures
        set_field(set_field(optional, j, v), j, w) == set_field(optional, j, w),
{
    assert(set_field(set_field(optional, j, v), j, w) =~= set_field(optional, j, w));
}

/// Calls of setters of other fields leave the field `j` as it is.
pub proof fn lemma_after_keeps<V>(optional: Seq<Option<V>>, calls: Seq<(int, V)>, j: int)
    requires
        0 <= j < optional.len(),
        forall|k: int| 0 <= k < calls.len() ==> (#[trigger] calls[k]).0 != j,
    ensures
        after(optional, calls).len() == optional.len(),
        after(optional, calls)[j] == optional[j],
    decreases calls.len(),
{
    if calls.len() > 0 {
        let before = calls.drop_last();
        assert forall|k: int| 0 <= k < before.len() implies (#[trigger] before[k]).0 != j by {
            assert(before[k] == calls[k]);
        }
        lemma_after_keeps(optional, before, j);
        assert(calls.last() == calls[calls.len() - 1]);
    }
}

} // verus!
