//! Reader for H.264 bitstream syntax: NAL units, parameter sets, slice headers and
//! supplemental enhancement information, with emulation-prevention handling.

pub mod annexb;
pub mod avcc;
pub mod nal;
pub mod push;
pub mod rbsp;

use vstd::prelude::*;

verus! {

/// The values held in a parameter set map, without the empty slots.
pub open spec fn present_values<T>(s: Seq<Option<T>>) -> Seq<T>
    decreases s.len(),
{
    if s.len() == 0 {
        Seq::empty()
    } else {
        let rest = present_values(s.drop_last());
        match s.last() {
            Some(v) => rest.push(v),
            None => rest,
        }
    }
}

/// The slots after putting `t` at `index`: slots up to `index` are added, empty, as needed.
pub open spec fn put_slot<T>(s: Seq<Option<T>>, index: int, t: T) -> Seq<Option<T>> {
    let grown = if s.len() <= index { s + Seq::new((index + 1 - s.len()) as nat, |_i: int| None) } else { s };
    grown.update(index, Some(t))
}

/// The value at `index`, if any.
pub open spec fn slot_value<T>(s: Seq<Option<T>>, index: int) -> Option<T> {
    if 0 <= index < s.len() {
        s[index]
    } else {
        None
    }
}

/// A map for very small indexes; SPS/PPS IDs must be in `[0, 32)`, and typically only 0 is used.
#[derive(Debug)]
pub struct ParamSetMap<T>(Vec<Option<T>>);

impl<T> Default for ParamSetMap<T> {
    fn default() -> (m: Self)
        ensures
            m@ == Seq::<Option<T>>::empty(),
    {
        ParamSetMap::new()
    }
}

impl<T> View for ParamSetMap<T> {
    type V = Seq<Option<T>>;

    closed spec fn view(&self) -> Seq<Option<T>> {
        self.0@
    }
}

impl<T> ParamSetMap<T> {
    pub fn new() -> (m: Self)
        ensures
            m@ == Seq::<Option<T>>::empty(),
    {
        ParamSetMap(Vec::new())
    }

    pub fn get(&self, index: usize) -> (r: Option<&T>)
        ensures
            match r {
                Some(v) => slot_value(self@, index as int) == Some(*v),
                None => slot_value(self@, index as int) is None,
            },
    {
        if index < self.0.len() {
            match &self.0[index] {
                Some(v) => Some(v),
                None => None,
            }
        } else {
            None
        }
    }

    pub fn put(&mut self, index: usize, t: T)
        requires
            index < usize::MAX,
        ensures
            final(self)@ == put_slot(old(self)@, index as int, t),
    {
        let ghost s0 = self.0@;
        while self.0.len() <= index
            invariant
                s0 == old(self)@,
                index < usize::MAX,
                s0.len() <= index + 1 ==> self.0@ == s0 + Seq::new((self.0@.len() - s0.len()) as nat, |_i: int| None::<T>),
                s0.len() > index ==> self.0@ == s0,
                self.0@.len() <= index + 1 || self.0@ == s0,
                self.0@.len() >= s0.len(),
            decreases index + 1 - self.0@.len(),
        {
            let ghost prev = self.0@;
            self.0.push(None);
            assert(self.0@ =~= s0 + Seq::new((self.0@.len() - s0.len()) as nat, |_i: int| None::<T>));
        }
        self.0.set(index, Some(t));
        assert(self.0@ =~= put_slot(s0, index as int, t));
    }

    /// The values in the map, in index order.
    pub fn iter(&self) -> (v: Vec<&T>)
        ensures
            v@.map_values(|x: &T| *x) == present_values(self@),
    {
        let mut v: Vec<&T> = Vec::new();
        let mut i: usize = 0;
        while i < self.0.len()
            invariant
                i <= self.0@.len(),
                v@.map_values(|x: &T| *x) == present_values(self.0@.take(i as int)),
            decreases self.0@.len() - i,
        {
            assert(self.0@.take(i + 1).drop_last() =~= self.0@.take(i as int));
            let ghost prev = v@;
            match &self.0[i] {
                Some(x) => {
                    v.push(x);
                    assert(v@.map_values(|x: &T| *x) =~= prev.map_values(|x: &T| *x).push(*x));
                },
                None => {},
            }
            i = i + 1;
        }
        assert(self.0@.take(i as int) =~= self.0@);
        v
    }
}

/// A read gives back the last value put at its index, and putting at one index leaves
/// every other index as it was.
pub proof fn lemma_param_set_map_put_get<T>(s: Seq<Option<T>>, index: int, t: T, other: int)
    requires
        0 <= index,
        other != index,
    ensures
        slot_value(put_slot(s, index, t), index) == Some(t),
        slot_value(put_slot(s, index, t), other) == slot_value(s, other),
{
}

proof fn lemma_present_values_prefix<T>(s: Seq<Option<T>>, n: int)
    requires
        0 <= n <= s.len(),
    ensures
        present_values(s.take(n)).len() <= present_values(s).len(),
        forall|k: int| 0 <= k < present_values(s.take(n)).len()
            ==> #[trigger] present_values(s.take(n))[k] == present_values(s)[k],
    decreases s.len() - n,
{
    if n == s.len() {
        assert(s.take(n) =~= s);
    } else {
        lemma_present_values_prefix(s, n + 1);
        assert(s.take(n + 1).drop_last() =~= s.take(n));
        let a = present_values(s.take(n));
        let b = present_values(s.take(n + 1));
        assert forall|k: int| 0 <= k < a.len() implies #[trigger] a[k] == present_values(s)[k] by {
            assert(b[k] == a[k]);
        }
    }
}

/// Where the value of slot `i` stands among the values of a map: after the values of the
/// slots before it.
proof fn lemma_present_value_rank<T>(s: Seq<Option<T>>, i: int)
    requires
        0 <= i < s.len(),
        s[i] is Some,
    ensures
        present_values(s.take(i)).len() < present_values(s).len(),
        present_values(s)[present_values(s.take(i)).len() as int] == s[i]->Some_0,
{
    lemma_present_values_prefix(s, i + 1);
    assert(s.take(i + 1).drop_last() =~= s.take(i));
    assert(s.take(i + 1).last() == s[i]);
    let r = present_values(s.take(i)).len() as int;
    assert(present_values(s.take(i + 1))[r] == s[i]->Some_0);
}

/// The values of a parameter set map come out in the order of their indexes: of two filled
/// slots, the value of the lower one comes first; and each slot holds the last value put at
/// its index.
pub proof fn lemma_param_set_map_order<T>(s: Seq<Option<T>>, i: int, j: int)
    requires
        0 <= i < j < s.len(),
        s[i] is Some,
        s[j] is Some,
    ensures
        exists|a: int, b: int| {
            &&& 0 <= a < b < present_values(s).len()
            &&& #[trigger] present_values(s)[a] == s[i]->Some_0
            &&& #[trigger] present_values(s)[b] == s[j]->Some_0
        },
{
    lemma_present_value_rank(s, i);
    lemma_present_value_rank(s, j);
    let a = present_values(s.take(i)).len() as int;
    let b = present_values(s.take(j)).len() as int;
    lemma_present_values_prefix(s.take(j), i + 1);
    assert(s.take(j).take(i + 1) =~= s.take(i + 1));
    assert(s.take(i + 1).drop_last() =~= s.take(i));
    assert(present_values(s.take(i + 1)).len() == a + 1);
    assert(a < b);
}

/// The slots after putting each `(index, value)` of `puts` in turn into an empty map.
pub open spec fn puts_slots<T>(puts: Seq<(int, T)>) -> Seq<Option<T>>
    decreases puts.len(),
{
    if puts.len() == 0 {
        Seq::empty()
    } else {
        put_slot(puts_slots(puts.drop_last()), puts.last().0, puts.last().1)
    }
}

/// The value last put at `index`, if any.
pub open spec fn last_put<T>(puts: Seq<(int, T)>, index: int) -> Option<T>
    decreases puts.len(),
{
    if puts.len() == 0 {
        None
    } else if puts.last().0 == index {
        Some(puts.last().1)
    } else {
        last_put(puts.drop_last(), index)
    }
}

proof fn lemma_puts_slots<T>(puts: Seq<(int, T)>)
    requires
        forall|k: int| 0 <= k < puts.len() ==> (#[trigger] puts[k]).0 >= 0,
    ensures
        forall|i: int| 0 <= i ==> #[trigger] slot_value(puts_slots(puts), i) == last_put(puts, i),
    decreases puts.len(),
{
    if puts.len() > 0 {
        let p = puts.drop_last();
        assert forall|k: int| 0 <= k < p.len() implies (#[trigger] p[k]).0 >= 0 by {
            assert(p[k] == puts[k]);
        }
        lemma_puts_slots(p);
        assert(puts[puts.len() - 1] == puts.last());
        assert forall|i: int| 0 <= i implies #[trigger] slot_value(puts_slots(puts), i) == last_put(puts, i) by {
            if i != puts.last().0 {
                lemma_param_set_map_put_get(puts_slots(p), puts.last().0, puts.last().1, i);
            } else {
                lemma_param_set_map_put_get(puts_slots(p), puts.last().0, puts.last().1, i + 1);
            }
        }
    }
}

/// Every value of a map comes from a filled slot, placed after the values of the slots
/// before it.
proof fn lemma_present_values_from_slots<T>(s: Seq<Option<T>>)
    ensures
        forall|k: int| #![trigger present_values(s)[k]] 0 <= k < present_values(s).len() ==> exists|i: int| {
            &&& 0 <= i < s.len()
            &&& #[trigger] s[i] == Some(present_values(s)[k])
            &&& present_values(s.take(i)).len() == k
        },
    decreases s.len(),
{
    if s.len() > 0 {
        let p = s.drop_last();
        lemma_present_values_from_slots(p);
        assert forall|k: int| #![trigger present_values(s)[k]] 0 <= k < present_values(s).len() implies exists|i: int| {
            &&& 0 <= i < s.len()
            &&& #[trigger] s[i] == Some(present_values(s)[k])
            &&& present_values(s.take(i)).len() == k
        } by {
            if k < present_values(p).len() {
                let i = choose|i: int| {
                    &&& 0 <= i < p.len()
                    &&& #[trigger] p[i] == Some(present_values(p)[k])
                    &&& present_values(p.take(i)).len() == k
                };
                assert(p.take(i) =~= s.take(i));
                assert(s[i] == p[i]);
            } else {
                let i = s.len() - 1;
                assert(s.take(i) =~= p);
                assert(s[i] == s.last());
            }
        }
    }
}

/// Putting parameter sets into an empty map, in any order and with any repeats, leaves at each
/// index the last value put there; the map's values then come out in ascending index order,
/// exactly one for each index that was put, and nothing else.
pub proof fn lemma_param_set_map_puts<T>(puts: Seq<(int, T)>)
    requires
        forall|k: int| 0 <= k < puts.len() ==> (#[trigger] puts[k]).0 >= 0,
    ensures
        forall|i: int| 0 <= i ==> #[trigger] slot_value(puts_slots(puts), i) == last_put(puts, i),
        forall|i: int| #![trigger puts_slots(puts)[i]] 0 <= i < puts_slots(puts).len() && puts_slots(puts)[i] is Some ==> {
            &&& present_values(puts_slots(puts).take(i)).len() < present_values(puts_slots(puts)).len()
            &&& present_values(puts_slots(puts))[present_values(puts_slots(puts).take(i)).len() as int]
                == puts_slots(puts)[i]->Some_0
        },
        forall|i: int, j: int| 0 <= i < j < puts_slots(puts).len() && puts_slots(puts)[i] is Some
            ==> #[trigger] present_values(puts_slots(puts).take(i)).len() < #[trigger] present_values(puts_slots(puts).take(j)).len(),
        forall|k: int| #![trigger present_values(puts_slots(puts))[k]] 0 <= k < present_values(puts_slots(puts)).len() ==> exists|i: int| {
            &&& 0 <= i < puts_slots(puts).len()
            &&& #[trigger] puts_slots(puts)[i] == Some(present_values(puts_slots(puts))[k])
            &&& present_values(puts_slots(puts).take(i)).len() == k
        },
{
    let s = puts_slots(puts);
    lemma_puts_slots(puts);
    assert forall|i: int| #![trigger s[i]] 0 <= i < s.len() && s[i] is Some implies {
        &&& present_values(s.take(i)).len() < present_values(s).len()
        &&& present_values(s)[present_values(s.take(i)).len() as int] == s[i]->Some_0
    } by {
        lemma_present_value_rank(s, i);
    }
    assert forall|i: int, j: int| 0 <= i < j < s.len() && s[i] is Some
        implies #[trigger] present_values(s.take(i)).len() < #[trigger] present_values(s.take(j)).len() by {
        lemma_present_values_prefix(s.take(j), i + 1);
        assert(s.take(j).take(i + 1) =~= s.take(i + 1));
        assert(s.take(i + 1).drop_last() =~= s.take(i));
        assert(s.take(i + 1).last() == s[i]);
    }
    lemma_present_values_from_slots(s);
}

/// Contextual data that needs to be tracked between evaluations of different portions of H264
/// syntax.
#[derive(Debug)]
pub struct Context {
    seq_param_sets: ParamSetMap<nal::sps::SeqParameterSet>,
    pic_param_sets: ParamSetMap<nal::pps::PicParameterSet>,
}

impl Context {
    /// The sequence parameter sets by id.
    pub closed spec fn sps_slots(&self) -> Seq<Option<nal::sps::SeqParameterSet>> {
        self.seq_param_sets@
    }

    /// The picture parameter sets by id.
    pub closed spec fn pps_slots(&self) -> Seq<Option<nal::pps::PicParameterSet>> {
        self.pic_param_sets@
    }

    pub fn new() -> (c: Self)
        ensures
            c.sps_slots() == Seq::<Option<nal::sps::SeqParameterSet>>::empty(),
            c.pps_slots() == Seq::<Option<nal::pps::PicParameterSet>>::empty(),
    {
        Context { seq_param_sets: ParamSetMap::new(), pic_param_sets: ParamSetMap::new() }
    }

    pub fn sps_by_id(&self, id: nal::sps::SeqParamSetId) -> (r: Option<&nal::sps::SeqParameterSet>)
        ensures
            match r {
                Some(v) => slot_value(self.sps_slots(), id.spec_id() as int) == Some(*v),
                None => slot_value(self.sps_slots(), id.spec_id() as int) is None,
            },
    {
        self.seq_param_sets.get(id.id() as usize)
    }

    /// The sequence parameter sets, in id order.
    pub fn sps(&self) -> (v: Vec<&nal::sps::SeqParameterSet>)
        ensures
            v@.map_values(|x: &nal::sps::SeqParameterSet| *x) == present_values(self.sps_slots()),
    {
        self.seq_param_sets.iter()
    }

    pub fn put_seq_param_set(&mut self, sps: nal::sps::SeqParameterSet)
        ensures
            final(self).sps_slots() == put_slot(old(self).sps_slots(), sps.seq_parameter_set_id.spec_id() as int, sps),
            final(self).pps_slots() == old(self).pps_slots(),
    {
        let i = sps.seq_parameter_set_id.id() as usize;
        self.seq_param_sets.put(i, sps);
    }

    pub fn pps_by_id(&self, id: nal::pps::PicParamSetId) -> (r: Option<&nal::pps::PicParameterSet>)
        ensures
            match r {
                Some(v) => slot_value(self.pps_slots(), id.spec_id() as int) == Some(*v),
                None => slot_value(self.pps_slots(), id.spec_id() as int) is None,
            },
    {
        self.pic_param_sets.get(id.id() as usize)
    }

    /// The picture parameter sets, in id order.
    pub fn pps(&self) -> (v: Vec<&nal::pps::PicParameterSet>)
        ensures
            v@.map_values(|x: &nal::pps::PicParameterSet| *x) == present_values(self.pps_slots()),
    {
        self.pic_param_sets.iter()
    }

    pub fn put_pic_param_set(&mut self, pps: nal::pps::PicParameterSet)
        ensures
            final(self).pps_slots() == put_slot(old(self).pps_slots(), pps.pic_parameter_set_id.spec_id() as int, pps),
            final(self).sps_slots() == old(self).sps_slots(),
    {
        let i = pps.pic_parameter_set_id.id() as usize;
        self.pic_param_sets.put(i, pps);
    }
}

impl Default for Context {
    fn default() -> (c: Self)
        ensures
            c.sps_slots() == Seq::<Option<nal::sps::SeqParameterSet>>::empty(),
            c.pps_slots() == Seq::<Option<nal::pps::PicParameterSet>>::empty(),
    {
        Context::new()
    }
}

} // verus!
