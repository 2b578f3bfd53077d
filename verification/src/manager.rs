//! Bookkeeping of the tables that a world registers: each table keeps its
//! columns by selector and the order of its record's columns.
use vstd::prelude::*;
use vstd::string::*;
use vstd::utf8::is_ascii_chars;
use crate::dojo_serde::clone_column_def;
use crate::felt::Felt;
use crate::selector::{namespace_name_selector, tag_parts};
use crate::typedef::{ColumnDef, ColumnDefView};
use crate::utils::selector::compute_selector_from_dojo_tag;
use crate::felt::stark_prime;
use crate::outside::{felt_from_hex, felt_hex_value, felt_lower_hex, strip_suffix};

verus! {

// ---------------------------------------------------------------------------
// Association lists as maps.
// ---------------------------------------------------------------------------

/// The map of an association list; a later entry wins over an earlier one.
pub open spec fn assoc_map<V>(s: Seq<(nat, V)>) -> Map<nat, V>
    decreases s.len(),
{
    if s.len() == 0 {
        Map::empty()
    } else {
        assoc_map(s.drop_last()).insert(s.last().0, s.last().1)
    }
}

/// No key occurs twice.
pub open spec fn keys_unique<V>(s: Seq<(nat, V)>) -> bool {
    forall|i: int, j: int| 0 <= i < j < s.len() ==> #[trigger] s[i].0 != #[trigger] s[j].0
}

proof fn lemma_assoc_dom<V>(s: Seq<(nat, V)>, k: nat)
    ensures
        assoc_map(s).dom().contains(k) <==> exists|i: int| 0 <= i < s.len() && #[trigger] s[i].0 == k,
    decreases s.len(),
{
    if s.len() > 0 {
        lemma_assoc_dom(s.drop_last(), k);
        if assoc_map(s.drop_last()).dom().contains(k) {
            let i = choose|i: int| 0 <= i < s.drop_last().len() && #[trigger] s.drop_last()[i].0 == k;
            assert(s[i].0 == k);
        }
        if exists|i: int| 0 <= i < s.len() && #[trigger] s[i].0 == k {
            let i = choose|i: int| 0 <= i < s.len() && #[trigger] s[i].0 == k;
            if i < s.len() - 1 {
                assert(s.drop_last()[i].0 == k);
            }
        }
    }
}

proof fn lemma_assoc_at<V>(s: Seq<(nat, V)>, j: int)
    requires
        keys_unique(s),
        0 <= j < s.len(),
    ensures
        assoc_map(s).dom().contains(s[j].0),
        assoc_map(s)[s[j].0] == s[j].1,
    decreases s.len(),
{
    if j < s.len() - 1 {
        lemma_assoc_at(s.drop_last(), j);
        assert(s.drop_last()[j] == s[j]);
    }
}

proof fn lemma_assoc_update<V>(s: Seq<(nat, V)>, j: int, v: V)
    requires
        keys_unique(s),
        0 <= j < s.len(),
    ensures
        assoc_map(s.update(j, (s[j].0, v))) == assoc_map(s).insert(s[j].0, v),
        keys_unique(s.update(j, (s[j].0, v))),
    decreases s.len(),
{
    let t = s.update(j, (s[j].0, v));
    if j == s.len() - 1 {
        assert(t.drop_last() =~= s.drop_last());
        assert(assoc_map(t) =~= assoc_map(s).insert(s[j].0, v));
    } else {
        assert(t.drop_last() =~= s.drop_last().update(j, (s[j].0, v)));
        lemma_assoc_update(s.drop_last(), j, v);
        assert(s.last().0 != s[j].0);
        assert(assoc_map(t) =~= assoc_map(s).insert(s[j].0, v));
    }
}

proof fn lemma_assoc_push<V>(s: Seq<(nat, V)>, k: nat, v: V)
    requires
        keys_unique(s),
        !assoc_map(s).dom().contains(k),
    ensures
        assoc_map(s.push((k, v))) == assoc_map(s).insert(k, v),
        keys_unique(s.push((k, v))),
{
    lemma_assoc_dom(s, k);
    assert(s.push((k, v)).drop_last() =~= s);
    assert forall|i: int, j: int| 0 <= i < j < s.push((k, v)).len() implies
        #[trigger] s.push((k, v))[i].0 != #[trigger] s.push((k, v))[j].0 by {
        if j == s.len() {
            assert(s[i].0 != k);
        }
    }
}

// ---------------------------------------------------------------------------
// Tables.
// ---------------------------------------------------------------------------

/// A table: its name, its columns by selector and the order of the
/// columns in a record. No selector occurs twice among the columns.
#[derive(Debug)]
pub struct Table {
    pub name: String,
    pub fields: Vec<(Felt, ColumnDef)>,
    pub record_order: Vec<Felt>,
}

/// The content of a [`Table`].
pub struct TableView {
    pub name: Seq<char>,
    pub fields: Map<nat, ColumnDefView>,
    pub record_order: Seq<nat>,
}

pub open spec fn field_entries(s: Seq<(Felt, ColumnDef)>) -> Seq<(nat, ColumnDefView)> {
    s.map_values(|e: (Felt, ColumnDef)| (e.0@, e.1.view()))
}

pub open spec fn felt_values(s: Seq<Felt>) -> Seq<nat> {
    s.map_values(|f: Felt| f@)
}

impl Table {
    pub open spec fn view(&self) -> TableView {
        TableView {
            name: self.name@,
            fields: assoc_map(field_entries(self.fields@)),
            record_order: felt_values(self.record_order@),
        }
    }

    /// No selector occurs twice among the columns.
    pub open spec fn wf(&self) -> bool {
        keys_unique(field_entries(self.fields@))
    }
}

/// The selector of a column: that of the tag its name holds.
pub open spec fn column_selector(name: Seq<char>) -> nat {
    namespace_name_selector(tag_parts(name).unwrap().0, tag_parts(name).unwrap().1)
}

/// Every column name is a tag `namespace-name`.
pub open spec fn names_are_tags(fields: Seq<ColumnDef>) -> bool {
    forall|i: int| 0 <= i < fields.len() ==> (#[trigger] tag_parts(fields[i].name@)) is Some
}

/// `base` with each column inserted under its selector, in order.
pub open spec fn insert_columns(base: Map<nat, ColumnDefView>, fields: Seq<ColumnDefView>) -> Map<nat, ColumnDefView>
    decreases fields.len(),
{
    if fields.len() == 0 {
        base
    } else {
        insert_columns(base, fields.drop_last()).insert(column_selector(fields.last().name), fields.last())
    }
}

/// The selectors of the columns, in order.
pub open spec fn column_selectors(fields: Seq<ColumnDefView>) -> Seq<nat> {
    fields.map_values(|c: ColumnDefView| column_selector(c.name))
}

pub open spec fn columns_view(fields: Seq<ColumnDef>) -> Seq<ColumnDefView> {
    fields.map_values(|c: ColumnDef| c.view())
}

/// The columns of a record: those of the record order that the table holds, in that order.
pub open spec fn record_schema(fields: Map<nat, ColumnDefView>, order: Seq<nat>) -> Seq<ColumnDefView>
    decreases order.len(),
{
    if order.len() == 0 {
        Seq::empty()
    } else if fields.dom().contains(order.last()) {
        record_schema(fields, order.drop_last()).push(fields[order.last()])
    } else {
        record_schema(fields, order.drop_last())
    }
}

/// Looks up the column with a selector.
fn find_field(fields: &Vec<(Felt, ColumnDef)>, key: Felt) -> (r: Option<usize>)
    ensures
        match r {
            Some(j) => j < fields@.len() && fields@[j as int].0 == key,
            None => !assoc_map(field_entries(fields@)).dom().contains(key@),
        },
{
    let mut j: usize = 0;
    while j < fields.len()
        invariant
            j <= fields.len(),
            forall|i: int| 0 <= i < j ==> fields@[i].0 != key,
        decreases fields.len() - j,
    {
        if fields[j].0 == key {
            return Some(j);
        }
        j += 1;
    }
    proof {
        lemma_assoc_dom(field_entries(fields@), key@);
        assert forall|i: int| 0 <= i < field_entries(fields@).len() implies
            #[trigger] field_entries(fields@)[i].0 != key@ by {
            Felt::lemma_value_injective(fields@[i].0, key);
        }
    }
    None
}

/// Inserts a column under a selector, replacing the one held there.
fn insert_field(fields: &mut Vec<(Felt, ColumnDef)>, key: Felt, column: ColumnDef)
    requires
        keys_unique(field_entries(old(fields)@)),
    ensures
        keys_unique(field_entries(final(fields)@)),
        assoc_map(field_entries(final(fields)@)) == assoc_map(field_entries(old(fields)@)).insert(
            key@,
            column.view(),
        ),
{
    let ghost cv = column.view();
    match find_field(fields, key) {
        Some(j) => {
            proof {
                lemma_assoc_update(field_entries(fields@), j as int, cv);
            }
            fields.set(j, (key, column));
            proof {
                assert(field_entries(fields@) =~= field_entries(old(fields)@).update(j as int, (key@, cv)));
            }
        },
        None => {
            proof {
                lemma_assoc_push(field_entries(fields@), key@, cv);
            }
            fields.push((key, column));
            proof {
                assert(field_entries(fields@) =~= field_entries(old(fields)@).push((key@, cv)));
            }
        },
    }
}

fn clone_felts(v: &Vec<Felt>) -> (r: Vec<Felt>)
    ensures
        r@ == v@,
{
    let mut out: Vec<Felt> = Vec::new();
    let mut i: usize = 0;
    while i < v.len()
        invariant
            i <= v.len(),
            out@ == v@.take(i as int),
        decreases v.len() - i,
    {
        out.push(v[i]);
        i += 1;
        proof {
            assert(out@ =~= v@.take(i as int));
        }
    }
    proof {
        assert(v@.take(v.len() as int) =~= v@);
    }
    out
}

/// `s` lists the values of `m`, each once, in some order of its keys.
pub open spec fn lists_values(s: Seq<ColumnDefView>, m: Map<nat, ColumnDefView>) -> bool {
    exists|keys: Seq<nat>|
        {
            &&& keys.no_duplicates()
            &&& keys.to_set() == m.dom()
            &&& keys.len() == s.len()
            &&& forall|i: int| 0 <= i < s.len() ==> s[i] == m[#[trigger] keys[i]]
        }
}

impl Table {
    /// The columns of the table, each once.
    pub fn columns(&self) -> (s: Vec<ColumnDef>)
        requires
            self.wf(),
        ensures
            lists_values(columns_view(s@), self.view().fields),
    {
        let mut out: Vec<ColumnDef> = Vec::new();
        let mut i: usize = 0;
        while i < self.fields.len()
            invariant
                i <= self.fields.len(),
                columns_view(out@) =~= field_entries(self.fields@).take(i as int).map_values(
                    |e: (nat, ColumnDefView)| e.1,
                ),
            decreases self.fields.len() - i,
        {
            out.push(clone_column_def(&self.fields[i].1));
            proof {
                let entries = field_entries(self.fields@);
                assert(entries.take(i + 1) =~= entries.take(i as int).push(entries[i as int]));
                assert(entries.take(i + 1).map_values(|e: (nat, ColumnDefView)| e.1) =~= entries.take(
                    i as int,
                ).map_values(|e: (nat, ColumnDefView)| e.1).push(entries[i as int].1));
            }
            i += 1;
        }
        proof {
            let entries = field_entries(self.fields@);
            let keys = entries.map_values(|e: (nat, ColumnDefView)| e.0);
            let m = self.view().fields;
            assert(entries.take(entries.len() as int) =~= entries);
            assert forall|a: int, b: int| 0 <= a < keys.len() && 0 <= b < keys.len() && a != b implies
                keys[a] != keys[b] by {
                if a < b {
                    assert(entries[a].0 != entries[b].0);
                } else {
                    assert(entries[b].0 != entries[a].0);
                }
            }
            assert forall|k: nat| keys.to_set().contains(k) <==> m.dom().contains(k) by {
                lemma_assoc_dom(entries, k);
                if m.dom().contains(k) {
                    let i = choose|i: int| 0 <= i < entries.len() && #[trigger] entries[i].0 == k;
                    assert(keys[i] == k);
                }
            }
            assert(keys.to_set() =~= m.dom());
            assert forall|i: int| 0 <= i < columns_view(out@).len() implies columns_view(out@)[i]
                == m[#[trigger] keys[i]] by {
                lemma_assoc_at(entries, i);
            }
        }
        out
    }

    /// A table from its name, its columns with their selectors (a later one
    /// replacing an earlier one with the same selector) and its record order.
    pub fn from_parts(name: String, columns: Vec<(Felt, ColumnDef)>, record_order: Vec<Felt>) -> (t: Table)
        ensures
            t.wf(),
            t.view() == (TableView {
                name: name@,
                fields: assoc_map(field_entries(columns@)),
                record_order: felt_values(record_order@),
            }),
    {
        let mut fields: Vec<(Felt, ColumnDef)> = Vec::new();
        let mut i: usize = 0;
        proof {
            assert(field_entries(fields@) =~= Seq::<(nat, ColumnDefView)>::empty());
            assert(field_entries(columns@).take(0) =~= Seq::<(nat, ColumnDefView)>::empty());
        }
        while i < columns.len()
            invariant
                i <= columns.len(),
                keys_unique(field_entries(fields@)),
                assoc_map(field_entries(fields@)) == assoc_map(field_entries(columns@).take(i as int)),
            decreases columns.len() - i,
        {
            insert_field(&mut fields, columns[i].0, clone_column_def(&columns[i].1));
            proof {
                let entries = field_entries(columns@);
                assert(entries.take(i + 1).drop_last() =~= entries.take(i as int));
                assert(entries.take(i + 1).last() == entries[i as int]);
            }
            i += 1;
        }
        proof {
            assert(field_entries(columns@).take(columns.len() as int) =~= field_entries(columns@));
        }
        Table { name, fields, record_order }
    }

    /// A copy of the table.
    pub fn clone_table(&self) -> (t: Table)
        ensures
            t.view() == self.view(),
            t.wf() == self.wf(),
    {
        let mut fields: Vec<(Felt, ColumnDef)> = Vec::new();
        let mut i: usize = 0;
        while i < self.fields.len()
            invariant
                i <= self.fields.len(),
                field_entries(fields@) =~= field_entries(self.fields@.take(i as int)),
            decreases self.fields.len() - i,
        {
            fields.push((self.fields[i].0, clone_column_def(&self.fields[i].1)));
            i += 1;
            proof {
                assert(field_entries(self.fields@.take(i as int)) =~= field_entries(
                    self.fields@.take(i - 1),
                ).push((self.fields@[i - 1].0@, self.fields@[i - 1].1.view())));
            }
        }
        proof {
            assert(self.fields@.take(self.fields.len() as int) =~= self.fields@);
        }
        Table { name: self.name.clone(), fields, record_order: clone_felts(&self.record_order) }
    }

    /// The columns of a record, in the record order.
    pub fn get_schema(&self) -> (s: Vec<ColumnDef>)
        requires
            self.wf(),
        ensures
            columns_view(s@) == record_schema(self.view().fields, self.view().record_order),
    {
        let mut out: Vec<ColumnDef> = Vec::new();
        let mut i: usize = 0;
        while i < self.record_order.len()
            invariant
                i <= self.record_order.len(),
                self.wf(),
                columns_view(out@) =~= record_schema(
                    self.view().fields,
                    felt_values(self.record_order@.take(i as int)),
                ),
            decreases self.record_order.len() - i,
        {
            let sel = self.record_order[i];
            proof {
                assert(felt_values(self.record_order@.take(i + 1)).drop_last() =~= felt_values(
                    self.record_order@.take(i as int),
                ));
                assert(felt_values(self.record_order@.take(i + 1)).last() == sel@);
            }
            match find_field(&self.fields, sel) {
                Some(j) => {
                    proof {
                        lemma_assoc_at(field_entries(self.fields@), j as int);
                    }
                    out.push(clone_column_def(&self.fields[j].1));
                },
                None => {},
            }
            i += 1;
        }
        proof {
            assert(self.record_order@.take(self.record_order.len() as int) =~= self.record_order@);
        }
        out
    }
}

// ---------------------------------------------------------------------------
// The manager.
// ---------------------------------------------------------------------------

/// Persistence of tables.
pub trait StoreTrait {
    type Table;

    fn dump(&self, table_id: Felt, data: &Self::Table) -> bool;

    fn load(&self, table_id: Felt) -> Option<Self::Table>;
}

/// The tables of a world by id, and the store they are persisted to.
/// No id occurs twice, and each table is well formed.
pub struct SimpleManager<Store> {
    pub tables: Vec<(Felt, Table)>,
    pub store: Store,
}

pub open spec fn table_entries(s: Seq<(Felt, Table)>) -> Seq<(nat, TableView)> {
    s.map_values(|e: (Felt, Table)| (e.0@, e.1.view()))
}

impl<Store> SimpleManager<Store> {
    /// The tables by the values of their ids.
    pub open spec fn view(&self) -> Map<nat, TableView> {
        assoc_map(table_entries(self.tables@))
    }

    /// No id occurs twice, and each table is well formed.
    pub open spec fn wf(&self) -> bool {
        &&& keys_unique(table_entries(self.tables@))
        &&& forall|i: int| 0 <= i < self.tables@.len() ==> (#[trigger] self.tables@[i]).1.wf()
    }

    /// A manager with no tables.
    pub fn with_store(store: Store) -> (m: Self)
        ensures
            m.wf(),
            m.view() == Map::<nat, TableView>::empty(),
    {
        let m = SimpleManager { tables: Vec::new(), store };
        proof {
            assert(table_entries(m.tables@) =~= Seq::<(nat, TableView)>::empty());
        }
        m
    }

    /// Puts a table under an id, replacing the one held there.
    pub fn insert_table(&mut self, id: Felt, table: Table)
        requires
            old(self).wf(),
            table.wf(),
        ensures
            final(self).wf(),
            final(self).view() == old(self).view().insert(id@, table.view()),
    {
        let ghost tv = table.view();
        match self.find_table(id) {
            Some(j) => {
                proof {
                    lemma_assoc_update(table_entries(self.tables@), j as int, tv);
                }
                self.tables.set(j, (id, table));
                proof {
                    assert(table_entries(self.tables@) =~= table_entries(old(self).tables@).update(
                        j as int,
                        (id@, tv),
                    ));
                }
            },
            None => {
                proof {
                    lemma_assoc_push(table_entries(self.tables@), id@, tv);
                }
                self.tables.push((id, table));
                proof {
                    assert(table_entries(self.tables@) =~= table_entries(old(self).tables@).push((id@, tv)));
                }
            },
        }
    }

    /// Looks up the table with an id.
    fn find_table(&self, id: Felt) -> (r: Option<usize>)
        ensures
            match r {
                Some(j) => j < self.tables@.len() && self.tables@[j as int].0 == id,
                None => !self.view().dom().contains(id@),
            },
    {
        let mut j: usize = 0;
        while j < self.tables.len()
            invariant
                j <= self.tables.len(),
                forall|i: int| 0 <= i < j ==> self.tables@[i].0 != id,
            decreases self.tables.len() - j,
        {
            if self.tables[j].0 == id {
                return Some(j);
            }
            j += 1;
        }
        proof {
            lemma_assoc_dom(table_entries(self.tables@), id@);
            assert forall|i: int| 0 <= i < table_entries(self.tables@).len() implies
                #[trigger] table_entries(self.tables@)[i].0 != id@ by {
                Felt::lemma_value_injective(self.tables@[i].0, id);
            }
        }
        None
    }
}

/// The table that a registration makes: the columns under their selectors,
/// and the record order that of the columns given.
pub open spec fn registered_table(name: Seq<char>, fields: Seq<ColumnDefView>) -> TableView {
    TableView {
        name,
        fields: insert_columns(Map::empty(), fields),
        record_order: column_selectors(fields),
    }
}

/// The table that an update makes of `t`: the new name, the columns inserted
/// over the old ones, and the record order kept.
pub open spec fn updated_table(t: TableView, name: Seq<char>, fields: Seq<ColumnDefView>) -> TableView {
    TableView { name, fields: insert_columns(t.fields, fields), record_order: t.record_order }
}

/// No two of the columns have the same selector.
pub open spec fn selectors_distinct(fields: Seq<ColumnDefView>) -> bool {
    column_selectors(fields).no_duplicates()
}

proof fn lemma_insert_columns_other(base: Map<nat, ColumnDefView>, fields: Seq<ColumnDefView>, k: nat)
    requires
        !column_selectors(fields).contains(k),
    ensures
        insert_columns(base, fields).dom().contains(k) == base.dom().contains(k),
        insert_columns(base, fields)[k] == base[k],
    decreases fields.len(),
{
    if fields.len() > 0 {
        assert(column_selectors(fields.drop_last()) =~= column_selectors(fields).drop_last());
        assert(column_selectors(fields)[fields.len() - 1] == column_selector(fields.last().name));
        if column_selectors(fields.drop_last()).contains(k) {
            let i = choose|i: int| 0 <= i < column_selectors(fields.drop_last()).len()
                && column_selectors(fields.drop_last())[i] == k;
            assert(column_selectors(fields)[i] == k);
        }
        lemma_insert_columns_other(base, fields.drop_last(), k);
    }
}

proof fn lemma_insert_columns_at(base: Map<nat, ColumnDefView>, fields: Seq<ColumnDefView>, i: int)
    requires
        selectors_distinct(fields),
        0 <= i < fields.len(),
    ensures
        insert_columns(base, fields).dom().contains(column_selector(fields[i].name)),
        insert_columns(base, fields)[column_selector(fields[i].name)] == fields[i],
    decreases fields.len(),
{
    let sels = column_selectors(fields);
    if i < fields.len() - 1 {
        assert(column_selectors(fields.drop_last()) =~= sels.drop_last());
        assert(sels[i] != sels[fields.len() - 1]);
        assert(fields.drop_last()[i] == fields[i]);
        lemma_insert_columns_at(base, fields.drop_last(), i);
    }
}

proof fn lemma_record_schema_other(m: Map<nat, ColumnDefView>, order: Seq<nat>, k: nat, v: ColumnDefView)
    requires
        !order.contains(k),
    ensures
        record_schema(m.insert(k, v), order) == record_schema(m, order),
    decreases order.len(),
{
    if order.len() > 0 {
        assert(order[order.len() - 1] == order.last());
        if order.drop_last().contains(k) {
            let i = choose|i: int| 0 <= i < order.drop_last().len() && order.drop_last()[i] == k;
            assert(order[i] == k);
        }
        lemma_record_schema_other(m, order.drop_last(), k, v);
    }
}

/// A freshly registered table holds each of its columns under the column's
/// selector, when no two columns share a selector.
pub proof fn law_registered_column(name: Seq<char>, fields: Seq<ColumnDefView>, i: int)
    requires
        selectors_distinct(fields),
        0 <= i < fields.len(),
    ensures
        registered_table(name, fields).fields.dom().contains(column_selector(fields[i].name)),
        registered_table(name, fields).fields[column_selector(fields[i].name)] == fields[i],
{
    lemma_insert_columns_at(Map::empty(), fields, i);
}

/// The record schema of a freshly registered table is its columns in the
/// order given, when no two columns share a selector.
pub proof fn law_registered_schema(name: Seq<char>, fields: Seq<ColumnDefView>)
    requires
        selectors_distinct(fields),
    ensures
        record_schema(registered_table(name, fields).fields, registered_table(name, fields).record_order)
            == fields,
    decreases fields.len(),
{
    if fields.len() > 0 {
        let init = fields.drop_last();
        let sels = column_selectors(fields);
        let k = column_selector(fields.last().name);
        assert(column_selectors(init) =~= sels.drop_last());
        assert(sels[fields.len() - 1] == k);
        assert(selectors_distinct(init));
        assert(!column_selectors(init).contains(k)) by {
            if column_selectors(init).contains(k) {
                let j = choose|j: int| 0 <= j < column_selectors(init).len() && column_selectors(init)[j] == k;
                assert(sels[j] == sels[fields.len() - 1]);
            }
        }
        law_registered_schema(name, init);
        lemma_record_schema_other(insert_columns(Map::empty(), init), column_selectors(init), k, fields.last());
        assert(init.push(fields.last()) =~= fields);
    }
}

/// An update replaces the columns it is given, under their selectors, when no
/// two of them share a selector.
pub proof fn law_updated_column(t: TableView, name: Seq<char>, fields: Seq<ColumnDefView>, i: int)
    requires
        selectors_distinct(fields),
        0 <= i < fields.len(),
    ensures
        updated_table(t, name, fields).fields.dom().contains(column_selector(fields[i].name)),
        updated_table(t, name, fields).fields[column_selector(fields[i].name)] == fields[i],
{
    lemma_insert_columns_at(t.fields, fields, i);
}

/// An update keeps every column whose selector it is not given, and the
/// record order.
pub proof fn law_update_keeps_others(t: TableView, name: Seq<char>, fields: Seq<ColumnDefView>, k: nat)
    requires
        !column_selectors(fields).contains(k),
    ensures
        updated_table(t, name, fields).fields.dom().contains(k) == t.fields.dom().contains(k),
        updated_table(t, name, fields).fields[k] == t.fields[k],
        updated_table(t, name, fields).record_order == t.record_order,
{
    lemma_insert_columns_other(t.fields, fields, k);
}

/// Registration and lookup of the tables of a world.
pub trait IntrospectManager {
    type Field;
    type Table;

    /// What every operation keeps of the manager.
    spec fn manager_inv(&self) -> bool;

    /// Fields that can be registered together.
    spec fn fields_accepted(fields: Seq<Self::Field>) -> bool;

    /// Whether a table has the id.
    spec fn has_table(&self, id: Felt) -> bool;

    /// Registers a new table; `false`, with nothing changed, if the id is taken.
    fn register_table(&mut self, id: Felt, name: &str, fields: Vec<Self::Field>) -> (r: bool)
        requires
            old(self).manager_inv(),
            !old(self).has_table(id) ==> Self::fields_accepted(fields@),
        ensures
            final(self).manager_inv(),
    ;

    /// Renames a table and adds or replaces columns; `false`, with nothing
    /// changed, if there is no table with the id.
    fn update_table(&mut self, id: Felt, name: &str, fields: Vec<Self::Field>) -> (r: bool)
        requires
            old(self).manager_inv(),
            old(self).has_table(id) ==> Self::fields_accepted(fields@),
        ensures
            final(self).manager_inv(),
    ;

    fn get_table(&self, id: Felt) -> Option<Self::Table>
        requires
            self.manager_inv(),
    ;

    fn get_table_schema(&self, id: Felt) -> Option<Vec<Self::Field>>
        requires
            self.manager_inv(),
    ;

    fn get_table_name(&self, table_id: Felt) -> Option<String>
        requires
            self.manager_inv(),
    ;

    fn get_table_field(&self, table_id: Felt, field_selector: Felt) -> Option<Self::Field>
        requires
            self.manager_inv(),
    ;

    fn get_table_fields(&self, table_id: Felt) -> Option<Vec<Self::Field>>
        requires
            self.manager_inv(),
    ;
}

/// Builds the columns of a table from fields whose names are tags: each under
/// its selector, a later one replacing an earlier one with the same selector,
/// and the selectors in order.
fn build_columns(fields: &Vec<ColumnDef>, base: &mut Vec<(Felt, ColumnDef)>) -> (order: Vec<Felt>)
    requires
        names_are_tags(fields@),
        keys_unique(field_entries(old(base)@)),
    ensures
        keys_unique(field_entries(final(base)@)),
        assoc_map(field_entries(final(base)@)) == insert_columns(
            assoc_map(field_entries(old(base)@)),
            columns_view(fields@),
        ),
        felt_values(order@) == column_selectors(columns_view(fields@)),
{
    let ghost start = assoc_map(field_entries(base@));
    let mut order: Vec<Felt> = Vec::new();
    let mut i: usize = 0;
    while i < fields.len()
        invariant
            i <= fields.len(),
            names_are_tags(fields@),
            keys_unique(field_entries(base@)),
            assoc_map(field_entries(base@)) == insert_columns(start, columns_view(fields@.take(i as int))),
            felt_values(order@) == column_selectors(columns_view(fields@.take(i as int))),
        decreases fields.len() - i,
    {
        assert(tag_parts(fields@[i as int].name@) is Some);
        let sel = compute_selector_from_dojo_tag(fields[i].name.as_str());
        let column = clone_column_def(&fields[i]);
        insert_field(base, sel, column);
        let ghost before = order@;
        order.push(sel);
        proof {
            let done = columns_view(fields@.take(i + 1));
            let prev = columns_view(fields@.take(i as int));
            assert(done =~= prev.push(fields@[i as int].view()));
            assert(done.drop_last() =~= prev);
            assert(felt_values(order@) =~= felt_values(before).push(sel@));
            assert(column_selectors(done) =~= column_selectors(prev).push(
                column_selector(fields@[i as int].name@),
            ));
        }
        i += 1;
    }
    proof {
        assert(fields@.take(fields.len() as int) =~= fields@);
    }
    order
}

impl<Store: StoreTrait<Table = Table>> IntrospectManager for SimpleManager<Store> {
    type Field = ColumnDef;
    type Table = Table;

    open spec fn manager_inv(&self) -> bool {
        self.wf()
    }

    open spec fn fields_accepted(fields: Seq<ColumnDef>) -> bool {
        names_are_tags(fields)
    }

    open spec fn has_table(&self, id: Felt) -> bool {
        self.view().dom().contains(id@)
    }

    fn register_table(&mut self, id: Felt, name: &str, fields: Vec<ColumnDef>) -> (r: bool)
        ensures
            r == !old(self).view().dom().contains(id@),
            r ==> final(self).view() == old(self).view().insert(
                id@,
                registered_table(name@, columns_view(fields@)),
            ),
            !r ==> final(self).view() == old(self).view(),
    {
        match self.find_table(id) {
            Some(j) => {
                proof {
                    lemma_assoc_at(table_entries(self.tables@), j as int);
                }
                return false;
            },
            None => {},
        }
        let mut columns: Vec<(Felt, ColumnDef)> = Vec::new();
        proof {
            assert(field_entries(columns@) =~= Seq::<(nat, ColumnDefView)>::empty());
            assert(assoc_map(field_entries(columns@)) =~= Map::<nat, ColumnDefView>::empty());
        }
        let record_order = build_columns(&fields, &mut columns);
        let table = Table { name: name.to_owned(), fields: columns, record_order };
        self.store.dump(id, &table);
        proof {
            lemma_assoc_push(table_entries(self.tables@), id@, table.view());
        }
        self.tables.push((id, table));
        proof {
            assert(table_entries(self.tables@) =~= table_entries(old(self).tables@).push((id@, table.view())));
        }
        true
    }

    fn update_table(&mut self, id: Felt, name: &str, fields: Vec<ColumnDef>) -> (r: bool)
        ensures
            r == old(self).view().dom().contains(id@),
            r ==> final(self).view() == old(self).view().insert(
                id@,
                updated_table(old(self).view()[id@], name@, columns_view(fields@)),
            ),
            !r ==> final(self).view() == old(self).view(),
    {
        match self.find_table(id) {
            None => false,
            Some(j) => {
                proof {
                    lemma_assoc_at(table_entries(self.tables@), j as int);
                }
                let mut table = self.tables[j].1.clone_table();
                table.name = name.to_owned();
                // The selectors in the order given are computed, as for a
                // registration, but the table keeps its record order.
                let _order = build_columns(&fields, &mut table.fields);
                self.store.dump(id, &table);
                proof {
                    lemma_assoc_update(table_entries(self.tables@), j as int, table.view());
                }
                self.tables.set(j, (id, table));
                proof {
                    assert(table_entries(self.tables@) =~= table_entries(old(self).tables@).update(
                        j as int,
                        (id@, table.view()),
                    ));
                }
                true
            },
        }
    }

    fn get_table(&self, id: Felt) -> (r: Option<Table>)
        ensures
            r is Some == self.view().dom().contains(id@),
            r matches Some(t) ==> t.view() == self.view()[id@] && t.wf(),
    {
        match self.find_table(id) {
            None => None,
            Some(j) => {
                proof {
                    lemma_assoc_at(table_entries(self.tables@), j as int);
                }
                Some(self.tables[j].1.clone_table())
            },
        }
    }

    fn get_table_name(&self, table_id: Felt) -> (r: Option<String>)
        ensures
            r is Some == self.view().dom().contains(table_id@),
            r matches Some(n) ==> n@ == self.view()[table_id@].name,
    {
        match self.find_table(table_id) {
            None => None,
            Some(j) => {
                proof {
                    lemma_assoc_at(table_entries(self.tables@), j as int);
                }
                Some(self.tables[j].1.name.clone())
            },
        }
    }

    fn get_table_schema(&self, id: Felt) -> (r: Option<Vec<ColumnDef>>)
        ensures
            r is Some == self.view().dom().contains(id@),
            r matches Some(s) ==> columns_view(s@) == record_schema(
                self.view()[id@].fields,
                self.view()[id@].record_order,
            ),
    {
        match self.find_table(id) {
            None => None,
            Some(j) => {
                proof {
                    lemma_assoc_at(table_entries(self.tables@), j as int);
                }
                Some(self.tables[j].1.get_schema())
            },
        }
    }

    fn get_table_field(&self, table_id: Felt, field_selector: Felt) -> (r: Option<ColumnDef>)
        ensures
            r is Some == (self.view().dom().contains(table_id@) && self.view()[table_id@].fields.dom().contains(
                field_selector@,
            )),
            r matches Some(c) ==> c.view() == self.view()[table_id@].fields[field_selector@],
    {
        match self.find_table(table_id) {
            None => None,
            Some(j) => {
                proof {
                    lemma_assoc_at(table_entries(self.tables@), j as int);
                }
                let table = &self.tables[j].1;
                match find_field(&table.fields, field_selector) {
                    None => None,
                    Some(k) => {
                        proof {
                            lemma_assoc_at(field_entries(table.fields@), k as int);
                        }
                        Some(clone_column_def(&table.fields[k].1))
                    },
                }
            },
        }
    }

    fn get_table_fields(&self, table_id: Felt) -> (r: Option<Vec<ColumnDef>>)
        ensures
            r is Some == self.view().dom().contains(table_id@),
            r matches Some(s) ==> lists_values(columns_view(s@), self.view()[table_id@].fields),
    {
        match self.find_table(table_id) {
            None => None,
            Some(j) => {
                proof {
                    lemma_assoc_at(table_entries(self.tables@), j as int);
                }
                Some(self.tables[j].1.columns())
            },
        }
    }
}

// ---------------------------------------------------------------------------
// File names of stored tables.
// ---------------------------------------------------------------------------

/// The lowercase hexadecimal digit of `d < 16`.
pub open spec fn hex_digit(d: nat) -> char {
    seq!['0', '1', '2', '3', '4', '5', '6', '7', '8', '9', 'a', 'b', 'c', 'd', 'e', 'f'][d as int]
}

/// The lowercase hexadecimal digits of `n`, without leading zeros; `0` for zero.
pub open spec fn hex_digits(n: nat) -> Seq<char>
    decreases n,
{
    if n < 16 {
        seq![hex_digit(n)]
    } else {
        hex_digits(n / 16).push(hex_digit(n % 16))
    }
}

/// The digits of `n`, padded on the left with zeros to `width` digits.
pub open spec fn hex_lower_padded(n: nat, width: nat) -> Seq<char> {
    let d = hex_digits(n);
    if d.len() < width {
        Seq::new((width - d.len()) as nat, |i: int| '0') + d
    } else {
        d
    }
}

/// The file name of the table with id value `n`.
pub open spec fn json_file_name(n: nat) -> Seq<char> {
    "0x"@ + hex_lower_padded(n, 32) + ".json"@
}

/// The text before `.json` when `s` ends with it.
pub open spec fn json_stem(s: Seq<char>) -> Option<Seq<char>> {
    if s.len() >= ".json"@.len() && s.subrange(s.len() - ".json"@.len(), s.len() as int) == ".json"@ {
        Some(s.subrange(0, s.len() - ".json"@.len()))
    } else {
        None
    }
}

proof fn lemma_hex_digits_ascii(n: nat)
    ensures
        is_ascii_chars(hex_digits(n)),
    decreases n,
{
    if n >= 16 {
        lemma_hex_digits_ascii(n / 16);
        assert(hex_digit(n % 16) <= '\u{7f}');
    } else {
        assert(hex_digit(n) <= '\u{7f}');
    }
}

spec fn pow16(k: nat) -> nat
    decreases k,
{
    if k == 0 {
        1
    } else {
        16 * pow16((k - 1) as nat)
    }
}

proof fn lemma_hex_digits_len(n: nat, k: nat)
    requires
        k >= 1,
        n < pow16(k),
    ensures
        hex_digits(n).len() <= k,
    decreases k,
{
    if n >= 16 {
        assert(k >= 2) by {
            if k == 1 {
                assert(pow16(1) == 16) by {
                    reveal_with_fuel(pow16, 2);
                }
            }
        }
        assert(n / 16 < pow16((k - 1) as nat)) by (nonlinear_arith)
            requires
                n < 16 * pow16((k - 1) as nat),
        ;
        lemma_hex_digits_len(n / 16, (k - 1) as nat);
    }
}

/// The stem of a table's file name is `0x` and the padded hex digits of its id.
pub proof fn law_file_name_stem(n: nat)
    ensures
        json_stem(json_file_name(n)) == Some("0x"@ + hex_lower_padded(n, 32)),
{
    let h = "0x"@ + hex_lower_padded(n, 32);
    let s = json_file_name(n);
    assert(s =~= h + ".json"@);
    assert(s.subrange(s.len() - ".json"@.len(), s.len() as int) =~= ".json"@);
    assert(s.subrange(0, s.len() - ".json"@.len()) =~= h);
}

/// The file name of a table: `0x`, the hex digits of its id padded to 32,
/// and `.json`.
pub fn felt_to_json_file_name(felt: &Felt) -> (s: String)
    ensures
        s@ == json_file_name(felt@),
{
    // The contract of `high` bounds the value below the prime, so the
    // number of its digits fits a `usize`.
    let _ = felt.high();
    let digits = felt_lower_hex(felt);
    let hs = digits.as_str();
    proof {
        lemma_hex_digits_ascii(felt@);
        vstd::string::is_ascii_spec_bytes(hs);
        reveal_strlit("0x");
        reveal_strlit("0");
        reveal_strlit(".json");
        assert(hs@ == hex_digits(felt@));
        assert(vstd::string::is_ascii(hs));
        assert(hs.spec_bytes().len() == hs@.len());
        assert(pow16(64) == 0x1_0000_0000_0000_0000_0000_0000_0000_0000_0000_0000_0000_0000_0000_0000_0000_0000nat)
            by {
            reveal_with_fuel(pow16, 65);
        }
        lemma_hex_digits_len(felt@, 64);
    }
    let len = hs.len();
    let mut s = "0x".to_owned();
    let mut i = len;
    while i < 32
        invariant
            len == hex_digits(felt@).len(),
            len <= i <= 32 || (i == len && len >= 32),
            s@ == "0x"@ + Seq::new((i - len) as nat, |k: int| '0'),
        decreases 32 - i,
    {
        s.append("0");
        proof {
            reveal_strlit("0");
            assert(s@ =~= "0x"@ + Seq::new((i + 1 - len) as nat, |k: int| '0'));
        }
        i += 1;
    }
    s.append(hs);
    s.append(".json");
    proof {
        if len < 32 {
            assert(i == 32);
        } else {
            assert(Seq::new((i - len) as nat, |k: int| '0') =~= Seq::<char>::empty());
        }
        assert(s@ =~= json_file_name(felt@));
    }
    s
}

/// The table id of a file name: the field element written in hex before
/// `.json`; none for other names. A name made by [`felt_to_json_file_name`]
/// gives its id back.
pub fn json_file_name_to_felt(file_name: &str) -> (r: Option<Felt>)
    ensures
        match json_stem(file_name@) {
            Some(h) => (match r {
                Some(f) => Some(f@),
                None => None::<nat>,
            }) == felt_hex_value(h),
            None => r is None,
        },
        forall|n: nat| n < stark_prime() && file_name@ == json_file_name(n) ==> (r matches Some(f) && f@
            == n),
{
    let stem = strip_suffix(file_name, ".json");
    match stem {
        None => {
            proof {
                assert forall|n: nat| n < stark_prime() && file_name@ == json_file_name(n) implies false by {
                    law_file_name_stem(n);
                }
            }
            None
        },
        Some(hex) => {
            proof {
                assert(file_name@.subrange(file_name@.len() - ".json"@.len(), file_name@.len() as int)
                    =~= ".json"@);
                assert(file_name@.subrange(0, file_name@.len() - ".json"@.len()) =~= hex@);
                assert forall|n: nat| n < stark_prime() && file_name@ == json_file_name(n) implies
                    hex@ == "0x"@ + hex_lower_padded(n, 32) by {
                    law_file_name_stem(n);
                }
            }
            felt_from_hex(hex)
        },
    }
}

} // verus!
