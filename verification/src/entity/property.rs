use vstd::prelude::*;

verus! {

/// A nutritional property recorded for an ingredient.
#[derive(Clone, Copy, Debug, PartialEq, Eq, Structural)]
pub enum PropertyType {
    Fat,
    Sugar,
    Water,
    Density,
}

impl PropertyType {
    /// Whether values of this property are stored as a percentage of the
    /// ingredient's weight (fat, sugar and water are; density is not).
    pub open spec fn spec_is_percentage(self) -> bool {
        !(self is Density)
    }

    pub fn is_percentage(&self) -> (r: bool)
        ensures
            r == self.spec_is_percentage(),
            r <==> *self != PropertyType::Density,
    {
        match self {
            PropertyType::Density => false,
            _ => true,
        }
    }
}

/// One value for each property of an ingredient.
#[derive(Clone, Copy, Debug)]
pub struct PropertyValues<V> {
    pub fat: V,
    pub sugar: V,
    pub water: V,
    pub density: V,
}

impl<V: Copy> PropertyValues<V> {
    pub open spec fn spec_get(self, p: PropertyType) -> V {
        match p {
            PropertyType::Fat => self.fat,
            PropertyType::Sugar => self.sugar,
            PropertyType::Water => self.water,
            PropertyType::Density => self.density,
        }
    }

    pub open spec fn spec_with(self, p: PropertyType, v: V) -> Self {
        match p {
            PropertyType::Fat => PropertyValues { fat: v, ..self },
            PropertyType::Sugar => PropertyValues { sugar: v, ..self },
            PropertyType::Water => PropertyValues { water: v, ..self },
            PropertyType::Density => PropertyValues { density: v, ..self },
        }
    }

    /// The same value for every property.
    pub fn uniform(v: V) -> (r: Self)
        ensures
            r == (PropertyValues { fat: v, sugar: v, water: v, density: v }),
    {
        PropertyValues { fat: v, sugar: v, water: v, density: v }
    }

    /// The value of property `p`.
    pub fn get(&self, p: PropertyType) -> (r: V)
        ensures
            r == self.spec_get(p),
            p == PropertyType::Fat ==> r == self.fat,
            p == PropertyType::Sugar ==> r == self.sugar,
            p == PropertyType::Water ==> r == self.water,
            p == PropertyType::Density ==> r == self.density,
    {
        match p {
            PropertyType::Fat => self.fat,
            PropertyType::Sugar => self.sugar,
            PropertyType::Water => self.water,
            PropertyType::Density => self.density,
        }
    }

    /// Replaces the value of property `p` by `v`.
    pub fn set(&mut self, p: PropertyType, v: V)
        ensures
            *final(self) == old(self).spec_with(p, v),
            final(self).fat == (if p == PropertyType::Fat { v } else { old(self).fat }),
            final(self).sugar == (if p == PropertyType::Sugar { v } else { old(self).sugar }),
            final(self).water == (if p == PropertyType::Water { v } else { old(self).water }),
            final(self).density == (if p == PropertyType::Density { v } else { old(self).density }),
    {
        match p {
            PropertyType::Fat => self.fat = v,
            PropertyType::Sugar => self.sugar = v,
            PropertyType::Water => self.water = v,
            PropertyType::Density => self.density = v,
        }
    }
}

/// The value that the last row of property `p` carries, or `default` when no
/// row has that property.
pub open spec fn last_value<V>(rows: Seq<(PropertyType, V)>, p: PropertyType, default: V) -> V
    decreases rows.len(),
{
    if rows.len() == 0 {
        default
    } else if rows.last().0 == p {
        rows.last().1
    } else {
        last_value(rows.drop_last(), p, default)
    }
}

/// The property values that a list of property rows describes: for each
/// property the value of its last row, `default` where none.
pub open spec fn collected<V>(rows: Seq<(PropertyType, V)>, default: V) -> PropertyValues<V> {
    PropertyValues {
        fat: last_value(rows, PropertyType::Fat, default),
        sugar: last_value(rows, PropertyType::Sugar, default),
        water: last_value(rows, PropertyType::Water, default),
        density: last_value(rows, PropertyType::Density, default),
    }
}

/// The property rows that record `values`: one per property, in the order
/// fat, sugar, water, density.
pub open spec fn rows_of<V>(values: PropertyValues<V>) -> Seq<(PropertyType, V)> {
    seq![
        (PropertyType::Fat, values.fat),
        (PropertyType::Sugar, values.sugar),
        (PropertyType::Water, values.water),
        (PropertyType::Density, values.density),
    ]
}

/// The rows to store for a new ingredient with the given property values.
pub fn property_rows<V: Copy>(values: &PropertyValues<V>) -> (r: Vec<(PropertyType, V)>)
    ensures
        r@ == rows_of(*values),
        r.len() == 4,
        r@[0] == (PropertyType::Fat, values.fat),
        r@[1] == (PropertyType::Sugar, values.sugar),
        r@[2] == (PropertyType::Water, values.water),
        r@[3] == (PropertyType::Density, values.density),
{
    let mut r: Vec<(PropertyType, V)> = Vec::new();
    r.push((PropertyType::Fat, values.fat));
    r.push((PropertyType::Sugar, values.sugar));
    r.push((PropertyType::Water, values.water));
    r.push((PropertyType::Density, values.density));
    assert(r@ =~= rows_of(*values));
    r
}

/// Gathers the property rows of one ingredient into its property values: a
/// later row of a property replaces an earlier one, and a property without
/// rows keeps `default`.
pub fn collect_properties<V: Copy>(rows: &Vec<(PropertyType, V)>, default: V) -> (r: PropertyValues<V>)
    ensures
        r == collected(rows@, default),
        forall|p: PropertyType|
            #![trigger r.spec_get(p)]
            (forall|j: int| 0 <= j < rows.len() ==> (#[trigger] rows@[j]).0 != p) ==> r.spec_get(p)
                == default,
        forall|p: PropertyType, i: int|
            #![trigger r.spec_get(p), rows@[i]]
            0 <= i < rows.len() && rows@[i].0 == p && (forall|j: int|
                i < j < rows.len() ==> (#[trigger] rows@[j]).0 != p) ==> r.spec_get(p) == rows@[i].1,
{
    let mut values = PropertyValues::uniform(default);
    let mut i: usize = 0;
    assert(rows@.subrange(0, 0) =~= Seq::<(PropertyType, V)>::empty());
    while i < rows.len()
        invariant
            i <= rows.len(),
            values == collected(rows@.subrange(0, i as int), default),
        decreases rows.len() - i,
    {
        let (p, v) = rows[i];
        values.set(p, v);
        proof {
            let prefix = rows@.subrange(0, i as int + 1);
            assert(prefix.drop_last() =~= rows@.subrange(0, i as int));
            assert(prefix.last() == (p, v));
        }
        i = i + 1;
    }
    assert(rows@.subrange(0, rows.len() as int) =~= rows@);
    proof {
        assert forall|p: PropertyType|
            (forall|j: int| 0 <= j < rows.len() ==> (#[trigger] rows@[j]).0 != p) implies values.spec_get(p)
            == default by {
            lemma_last_value_absent(rows@, p, default);
            lemma_collected_get(rows@, default, p);
        }
        assert forall|p: PropertyType, i: int|
            0 <= i < rows.len() && rows@[i].0 == p && (forall|j: int|
                i < j < rows.len() ==> (#[trigger] rows@[j]).0 != p) implies values.spec_get(p)
            == rows@[i].1 by {
            lemma_last_value_last_row(rows@, p, default, i);
            lemma_collected_get(rows@, default, p);
        }
    }
    values
}

/// Reading back the rows stored for an ingredient gives the values they were
/// made from, whatever default a missing property would take.
pub proof fn lemma_collect_rows_of<V>(values: PropertyValues<V>, default: V)
    ensures
        collected(rows_of(values), default) == values,
{
    let rows = rows_of(values);
    reveal_with_fuel(last_value, 5);
    assert(rows.drop_last() =~= seq![
        (PropertyType::Fat, values.fat),
        (PropertyType::Sugar, values.sugar),
        (PropertyType::Water, values.water),
    ]);
    assert(rows.drop_last().drop_last() =~= seq![
        (PropertyType::Fat, values.fat),
        (PropertyType::Sugar, values.sugar),
    ]);
    assert(rows.drop_last().drop_last().drop_last() =~= seq![(PropertyType::Fat, values.fat)]);
}

/// Reading a property gives the field of that name.
pub proof fn lemma_get_reads_field<V: Copy>(values: PropertyValues<V>)
    ensures
        values.spec_get(PropertyType::Fat) == values.fat,
        values.spec_get(PropertyType::Sugar) == values.sugar,
        values.spec_get(PropertyType::Water) == values.water,
        values.spec_get(PropertyType::Density) == values.density,
{
}

/// Reading a property just replaced gives the new value; every other
/// property reads as before.
pub proof fn lemma_get_after_with<V: Copy>(values: PropertyValues<V>, p: PropertyType, v: V, q: PropertyType)
    ensures
        values.spec_with(p, v).spec_get(p) == v,
        q != p ==> values.spec_with(p, v).spec_get(q) == values.spec_get(q),
{
}

/// The values read from a property's rows are those of its last row.
proof fn lemma_collected_get<V: Copy>(rows: Seq<(PropertyType, V)>, default: V, p: PropertyType)
    ensures
        collected(rows, default).spec_get(p) == last_value(rows, p, default),
{
}

proof fn lemma_last_value_absent<V>(rows: Seq<(PropertyType, V)>, p: PropertyType, default: V)
    requires
        forall|j: int| 0 <= j < rows.len() ==> (#[trigger] rows[j]).0 != p,
    ensures
        last_value(rows, p, default) == default,
    decreases rows.len(),
{
    if rows.len() > 0 {
        assert(rows[rows.len() - 1].0 != p);
        assert forall|j: int| 0 <= j < rows.drop_last().len() implies (#[trigger] rows.drop_last()[j]).0
            != p by {
            assert(rows.drop_last()[j] == rows[j]);
        }
        lemma_last_value_absent(rows.drop_last(), p, default);
    }
}

proof fn lemma_last_value_last_row<V>(rows: Seq<(PropertyType, V)>, p: PropertyType, default: V, i: int)
    requires
        0 <= i < rows.len(),
        rows[i].0 == p,
        forall|j: int| i < j < rows.len() ==> (#[trigger] rows[j]).0 != p,
    ensures
        last_value(rows, p, default) == rows[i].1,
    decreases rows.len(),
{
    if i < rows.len() - 1 {
        assert(rows[rows.len() - 1].0 != p);
        assert forall|j: int| i < j < rows.drop_last().len() implies (#[trigger] rows.drop_last()[j]).0
            != p by {
            assert(rows.drop_last()[j] == rows[j]);
        }
        assert(rows.drop_last()[i] == rows[i]);
        lemma_last_value_last_row(rows.drop_last(), p, default, i);
    }
}

/// Reading the rows of an ingredient: with no rows every property takes the
/// default; appending a row of property `p` makes `p` read as that row's value
/// and leaves every other property as it was.
pub proof fn lemma_collect_rows<V: Copy>(
    rows: Seq<(PropertyType, V)>,
    default: V,
    p: PropertyType,
    v: V,
    q: PropertyType,
)
    ensures
        collected(Seq::<(PropertyType, V)>::empty(), default).spec_get(q) == default,
        collected(rows.push((p, v)), default).spec_get(p) == v,
        q != p ==> collected(rows.push((p, v)), default).spec_get(q) == collected(rows, default).spec_get(
            q,
        ),
{
    lemma_collected_get(Seq::<(PropertyType, V)>::empty(), default, q);
    lemma_collected_get(rows.push((p, v)), default, p);
    lemma_collected_get(rows.push((p, v)), default, q);
    lemma_collected_get(rows, default, q);
    assert(rows.push((p, v)).drop_last() =~= rows);
    lemma_get_reads_field(collected(rows, default));
}

} // verus!
