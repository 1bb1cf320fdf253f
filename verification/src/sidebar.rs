//! The sidebar: its panels, and the state of the block library panel,
//! which lists the library's categories and, under each expanded one, the
//! blocks of that category. How far the list is scrolled and where its rows
//! are drawn is kept by the panel that draws it.

use crate::blocks::{catalog, category_table, headers, BlockDefinition, BlockLibrary};
use crate::persistent::{
    definition_list, definitions_clone, definitions_get, definitions_len, definitions_new, definitions_push_back,
    text_set, texts_clone, texts_contains, texts_insert, texts_new, texts_remove,
};
use vstd::prelude::*;

verus! {

/// Available sidebar panels.
#[derive(Clone, Copy, Debug, PartialEq, Eq, Structural)]
pub enum SidebarPanel {
    Blocks,
    Project,
}

impl SidebarPanel {
    pub fn icon(&self) -> (r: &'static str)
        ensures
            r@ == match *self {
                SidebarPanel::Blocks => "◨"@,
                SidebarPanel::Project => "📁"@,
            },
    {
        match self {
            SidebarPanel::Blocks => "◨",
            SidebarPanel::Project => "📁",
        }
    }

    pub fn label(&self) -> (r: &'static str)
        ensures
            r@ == match *self {
                SidebarPanel::Blocks => "Blocks"@,
                SidebarPanel::Project => "Project"@,
            },
    {
        match self {
            SidebarPanel::Blocks => "Blocks",
            SidebarPanel::Project => "Project",
        }
    }
}

/// Sidebar state.
#[derive(Debug)]
pub struct SidebarState {
    pub active_panel: SidebarPanel,
    pub expanded_categories: im::HashSet<String>,
    pub search_query: String,
    pub block_definitions: im::Vector<BlockDefinition>,
    pub is_dragging_block: bool,
    pub hovered_block_type: Option<String>,
}

/// A row of the block list: a category header, or the block definition at
/// a position of the state's definitions.
#[derive(Debug, Clone, Copy)]
pub enum SidebarRow {
    Category { id: &'static str, name: &'static str },
    Block(usize),
}

/// Mathematical model of a [`SidebarRow`].
pub enum RowModel {
    Category(Seq<char>, Seq<char>),
    Block(int),
}

pub open spec fn row_view(r: SidebarRow) -> RowModel {
    match r {
        SidebarRow::Category { id, name } => RowModel::Category(id@, name@),
        SidebarRow::Block(i) => RowModel::Block(i as int),
    }
}

/// Rows for the definitions among the first `n` whose category is `id`.
pub open spec fn members(cats: Seq<Seq<char>>, id: Seq<char>, n: nat) -> Seq<RowModel>
    decreases n,
{
    if n == 0 {
        Seq::empty()
    } else {
        members(cats, id, (n - 1) as nat) + if cats[n - 1] == id {
            seq![RowModel::Block(n - 1)]
        } else {
            Seq::empty()
        }
    }
}

/// The rows of the first `k` categories of `table`: each category's
/// header, followed, when the category is expanded, by its blocks.
pub open spec fn rows_upto(
    table: Seq<(Seq<char>, Seq<char>)>,
    expanded: Set<Seq<char>>,
    cats: Seq<Seq<char>>,
    k: nat,
) -> Seq<RowModel>
    decreases k,
{
    if k == 0 {
        Seq::empty()
    } else {
        let c = table[k - 1];
        rows_upto(table, expanded, cats, (k - 1) as nat) + seq![RowModel::Category(c.0, c.1)] + if expanded.contains(
            c.0,
        ) {
            members(cats, c.0, cats.len())
        } else {
            Seq::empty()
        }
    }
}

impl SidebarState {
    /// The category of each definition, in order.
    pub open spec fn categories_of(&self) -> Seq<Seq<char>> {
        definition_list(self.block_definitions).map_values(|d: BlockDefinition| d.category@)
    }

    /// The rows the block list shows, top to bottom.
    pub open spec fn row_models(&self) -> Seq<RowModel> {
        rows_upto(category_table(), text_set(self.expanded_categories), self.categories_of(), category_table().len())
    }

    /// The rows of the block list, top to bottom.
    pub fn rows(&self) -> (r: Vec<SidebarRow>)
        ensures
            r@.map_values(|x: SidebarRow| row_view(x)) == self.row_models(),
    {
        let table = BlockLibrary::get_categories();
        let ghost tv = table@.map_values(|p: (&'static str, &'static str)| (p.0@, p.1@));
        let ghost ex = text_set(self.expanded_categories);
        let ghost cats = self.categories_of();
        let n = definitions_len(&self.block_definitions);
        let mut rows: Vec<SidebarRow> = Vec::new();
        let mut k: usize = 0;
        assert(rows@.map_values(|x: SidebarRow| row_view(x)) =~= rows_upto(tv, ex, cats, 0));
        while k < table.len()
            invariant
                tv == table@.map_values(|p: (&'static str, &'static str)| (p.0@, p.1@)),
                tv == category_table(),
                ex == text_set(self.expanded_categories),
                cats == self.categories_of(),
                n == cats.len(),
                k <= table.len(),
                rows@.map_values(|x: SidebarRow| row_view(x)) == rows_upto(tv, ex, cats, k as nat),
            decreases table.len() - k,
        {
            let (id, name) = table[k];
            assert(tv[k as int] == (id@, name@));
            let ghost before = rows@.map_values(|x: SidebarRow| row_view(x));
            rows.push(SidebarRow::Category { id, name });
            let ghost head = before + seq![RowModel::Category(id@, name@)];
            assert(rows@.map_values(|x: SidebarRow| row_view(x)) =~= head);
            let key = String::from_str(id);
            if texts_contains(&self.expanded_categories, &key) {
                let mut i: usize = 0;
                assert(head + members(cats, id@, 0) =~= head);
                while i < n
                    invariant
                        n == cats.len(),
                        cats == self.categories_of(),
                        key@ == id@,
                        i <= n,
                        rows@.map_values(|x: SidebarRow| row_view(x)) == head + members(cats, id@, i as nat),
                    decreases n - i,
                {
                    let d = definitions_get(&self.block_definitions, i).unwrap();
                    assert(cats[i as int] == d.category@);
                    let ghost mid = rows@.map_values(|x: SidebarRow| row_view(x));
                    if d.category == key {
                        rows.push(SidebarRow::Block(i));
                        assert(rows@.map_values(|x: SidebarRow| row_view(x)) =~= mid.push(RowModel::Block(i as int)));
                        assert(members(cats, id@, (i + 1) as nat) == members(cats, id@, i as nat) + seq![
                            RowModel::Block(i as int),
                        ]);
                        assert(head + members(cats, id@, (i + 1) as nat) =~= mid.push(RowModel::Block(i as int)));
                    } else {
                        assert(members(cats, id@, (i + 1) as nat) =~= members(cats, id@, i as nat));
                    }
                    i = i + 1;
                }
                assert(rows_upto(tv, ex, cats, (k + 1) as nat) == head + members(cats, id@, cats.len()));
            } else {
                assert(rows_upto(tv, ex, cats, (k + 1) as nat) =~= head);
            }
            k = k + 1;
        }
        rows
    }

    /// Expand a collapsed category, or collapse an expanded one.
    pub fn toggle_category(&mut self, id: &str)
        ensures
            text_set(final(self).expanded_categories) == toggled(text_set(old(self).expanded_categories), id@),
            final(self).active_panel == old(self).active_panel,
            final(self).search_query == old(self).search_query,
            final(self).block_definitions == old(self).block_definitions,
            final(self).is_dragging_block == old(self).is_dragging_block,
            final(self).hovered_block_type == old(self).hovered_block_type,
    {
        let key = String::from_str(id);
        if texts_contains(&self.expanded_categories, &key) {
            texts_remove(&mut self.expanded_categories, &key);
        } else {
            texts_insert(&mut self.expanded_categories, key);
        }
    }

    /// The block type of the definition a row shows, if it shows one.
    pub open spec fn block_type_of(&self, row: SidebarRow) -> Option<Seq<char>> {
        match row {
            SidebarRow::Block(i) => if i < definition_list(self.block_definitions).len() {
                Some(definition_list(self.block_definitions)[i as int].block_type@)
            } else {
                None
            },
            _ => None,
        }
    }

    fn row_block_type(&self, row: &SidebarRow) -> (r: Option<String>)
        ensures
            match r {
                Some(t) => self.block_type_of(*row) == Some(t@),
                None => self.block_type_of(*row) is None,
            },
    {
        match row {
            SidebarRow::Block(i) => match definitions_get(&self.block_definitions, *i) {
                Some(d) => Some(d.block_type.clone()),
                None => None,
            },
            _ => None,
        }
    }

    /// A press on a row: a category header expands or collapses its
    /// category; a block row makes its block the one about to be dragged.
    pub fn press_row(&mut self, row: &SidebarRow)
        ensures
            row matches SidebarRow::Category { id, .. } ==> text_set(final(self).expanded_categories) == toggled(
                text_set(old(self).expanded_categories),
                id@,
            ),
            row matches SidebarRow::Category { .. } ==> final(self).hovered_block_type == old(self).hovered_block_type,
            row is Block ==> final(self).expanded_categories == old(self).expanded_categories,
            row is Block && old(self).block_type_of(*row) is Some ==> match final(self).hovered_block_type {
                Some(t) => old(self).block_type_of(*row) == Some(t@),
                None => false,
            },
            row is Block && old(self).block_type_of(*row) is None ==> final(self).hovered_block_type == old(
                self,
            ).hovered_block_type,
            final(self).active_panel == old(self).active_panel,
            final(self).block_definitions == old(self).block_definitions,
            final(self).is_dragging_block == old(self).is_dragging_block,
    {
        match row {
            SidebarRow::Category { id, .. } => self.toggle_category(id),
            SidebarRow::Block(_) => {
                if let Some(t) = self.row_block_type(row) {
                    self.hovered_block_type = Some(t);
                }
            },
        }
    }

    /// The pointer moved over a row (or over no row of the list): only a
    /// block row is hovered.
    pub fn hover_row(&mut self, row: Option<&SidebarRow>)
        ensures
            match final(self).hovered_block_type {
                Some(t) => row matches Some(x) && old(self).block_type_of(*x) == Some(t@),
                None => row matches Some(x) ==> old(self).block_type_of(*x) is None,
            },
            final(self).expanded_categories == old(self).expanded_categories,
            final(self).active_panel == old(self).active_panel,
            final(self).block_definitions == old(self).block_definitions,
            final(self).is_dragging_block == old(self).is_dragging_block,
    {
        self.hovered_block_type = match row {
            Some(x) => self.row_block_type(x),
            None => None,
        };
    }
}

impl Clone for SidebarState {
    fn clone(&self) -> (r: Self)
        ensures
            r.active_panel == self.active_panel,
            text_set(r.expanded_categories) == text_set(self.expanded_categories),
            r.search_query == self.search_query,
            definition_list(r.block_definitions) == definition_list(self.block_definitions),
            r.is_dragging_block == self.is_dragging_block,
            r.hovered_block_type == self.hovered_block_type,
    {
        SidebarState {
            active_panel: self.active_panel,
            expanded_categories: texts_clone(&self.expanded_categories),
            search_query: self.search_query.clone(),
            block_definitions: definitions_clone(&self.block_definitions),
            is_dragging_block: self.is_dragging_block,
            hovered_block_type: self.hovered_block_type.clone(),
        }
    }
}

impl Default for SidebarState {
    /// The blocks panel, nothing expanded, listing the whole library.
    fn default() -> (r: Self)
        ensures
            r.active_panel == SidebarPanel::Blocks,
            text_set(r.expanded_categories) == Set::<Seq<char>>::empty(),
            r.search_query@.len() == 0,
            headers(definition_list(r.block_definitions)) == catalog(),
            !r.is_dragging_block,
            r.hovered_block_type is None,
    {
        let defs = BlockLibrary::get_definitions();
        let mut list = definitions_new();
        let mut i: usize = 0;
        assert(headers(definition_list(list)) =~= headers(defs@.take(0)));
        while i < defs.len()
            invariant
                i <= defs@.len(),
                headers(definition_list(list)) == headers(defs@.take(i as int)),
                definition_list(list).len() == i,
            decreases defs@.len() - i,
        {
            let ghost before = definition_list(list);
            let d = defs[i].clone();
            definitions_push_back(&mut list, d);
            assert(defs@.take(i + 1) =~= defs@.take(i as int).push(defs@[i as int]));
            assert(headers(definition_list(list)) =~= headers(before).push(crate::blocks::header(d)));
            i = i + 1;
        }
        assert(defs@.take(defs@.len() as int) =~= defs@);
        SidebarState {
            active_panel: SidebarPanel::Blocks,
            expanded_categories: texts_new(),
            search_query: String::new(),
            block_definitions: list,
            is_dragging_block: false,
            hovered_block_type: None,
        }
    }
}

/// The expanded categories after `id` is toggled.
pub open spec fn toggled(expanded: Set<Seq<char>>, id: Seq<char>) -> Set<Seq<char>> {
    if expanded.contains(id) {
        expanded.remove(id)
    } else {
        expanded.insert(id)
    }
}

/// Toggling a category twice leaves the expanded categories as they were,
/// and toggling one category leaves every other as it was.
pub proof fn lemma_toggle_twice(expanded: Set<Seq<char>>, id: Seq<char>, other: Seq<char>)
    ensures
        toggled(toggled(expanded, id), id) == expanded,
        other != id ==> toggled(expanded, id).contains(other) == expanded.contains(other),
        toggled(expanded, id).contains(id) == !expanded.contains(id),
{
    assert(toggled(toggled(expanded, id), id) =~= expanded);
}

} // verus!
