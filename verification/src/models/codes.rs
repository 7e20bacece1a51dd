//! Authenticator entries and the table that holds them.
//!
//! Every read, update and delete is keyed by the pair of an entry's id and
//! its owner, so that an entry of another user looks exactly like an entry
//! that does not exist.

use crate::text::text_view;
use vstd::prelude::*;

verus! {

/// Number of characters of a server-generated entry id.
pub const ID_LENGTH: usize = 16;

/// One authenticator entry, owned by exactly one user.
#[derive(Debug)]
pub struct Code {
    pub id: String,
    pub owner_id: String,
    pub content: String,
    pub display_name: String,
    pub icon_url: Option<String>,
    pub website_url: Option<String>,
}

/// The mathematical value of a [`Code`].
pub struct CodeView {
    pub id: Seq<char>,
    pub owner_id: Seq<char>,
    pub content: Seq<char>,
    pub display_name: Seq<char>,
    pub icon_url: Option<Seq<char>>,
    pub website_url: Option<Seq<char>>,
}

impl View for Code {
    type V = CodeView;

    open spec fn view(&self) -> CodeView {
        CodeView {
            id: self.id@,
            owner_id: self.owner_id@,
            content: self.content@,
            display_name: self.display_name@,
            icon_url: text_view(self.icon_url),
            website_url: text_view(self.website_url),
        }
    }
}

/// The values of a sequence of entries, in the same order.
pub open spec fn views(codes: Seq<Code>) -> Seq<CodeView> {
    codes.map_values(|c: Code| c@)
}

fn copy_text(s: &Option<String>) -> (r: Option<String>)
    ensures
        r == *s,
{
    match s {
        Some(v) => Some(v.clone()),
        None => None,
    }
}

impl Clone for Code {
    fn clone(&self) -> (r: Self)
        ensures
            r == *self,
    {
        Code {
            id: self.id.clone(),
            owner_id: self.owner_id.clone(),
            content: self.content.clone(),
            display_name: self.display_name.clone(),
            icon_url: copy_text(&self.icon_url),
            website_url: copy_text(&self.website_url),
        }
    }
}

/// Why a table operation did not take effect.
#[derive(Clone, Copy, Debug, PartialEq, Eq, Structural)]
pub enum StoreError {
    /// No entry has the given id and the given owner.
    NotFound,
    /// An entry with the same id is already stored.
    Conflict,
    /// The id offered for a new entry does not have `ID_LENGTH` characters.
    InvalidId,
    /// The storage refused a write; nothing of the operation was kept.
    Fault,
}

/// Whether `c` is the entry named `id` that `owner_id` owns.
pub open spec fn keyed(c: CodeView, id: Seq<char>, owner_id: Seq<char>) -> bool {
    c.id == id && c.owner_id == owner_id
}

/// No two rows share an id.
pub open spec fn distinct_ids(rows: Seq<CodeView>) -> bool {
    forall|i: int, j: int|
        0 <= i < rows.len() && 0 <= j < rows.len() && i != j ==> #[trigger] rows[i].id
            != #[trigger] rows[j].id
}

/// Whether some row is the entry named `id` that `owner_id` owns.
pub open spec fn holds(rows: Seq<CodeView>, id: Seq<char>, owner_id: Seq<char>) -> bool {
    exists|i: int| 0 <= i < rows.len() && keyed(#[trigger] rows[i], id, owner_id)
}

/// The place of the entry named `id` that `owner_id` owns, where `holds`.
pub open spec fn place(rows: Seq<CodeView>, id: Seq<char>, owner_id: Seq<char>) -> int {
    choose|i: int| 0 <= i < rows.len() && keyed(#[trigger] rows[i], id, owner_id)
}

/// What a lookup by id and owner yields.
pub open spec fn lookup(rows: Seq<CodeView>, id: Seq<char>, owner_id: Seq<char>) -> Result<
    CodeView,
    StoreError,
> {
    if holds(rows, id, owner_id) {
        Ok(rows[place(rows, id, owner_id)])
    } else {
        Err(StoreError::NotFound)
    }
}

/// The rows that `owner_id` owns, in their stored order.
pub open spec fn owned(rows: Seq<CodeView>, owner_id: Seq<char>) -> Seq<CodeView> {
    rows.filter(|c: CodeView| c.owner_id == owner_id)
}

/// Whether some row, of any owner, carries `id`.
pub open spec fn id_taken(rows: Seq<CodeView>, id: Seq<char>) -> bool {
    exists|i: int| 0 <= i < rows.len() && (#[trigger] rows[i]).id == id
}

/// Whether a storage with `left` writes to go accepts `n` more of them.
pub open spec fn accepts(left: Option<u64>, n: nat) -> bool {
    match left {
        Some(k) => n <= k,
        None => true,
    }
}

/// What a storage with `left` writes to go has left after `n` accepted ones.
pub open spec fn after_writes(left: Option<u64>, n: nat) -> Option<u64> {
    match left {
        Some(k) => Some((k - n) as u64),
        None => None,
    }
}

/// `old`, or `new` where one is supplied.
pub open spec fn replaced(old: Seq<char>, new: Option<Seq<char>>) -> Seq<char> {
    match new {
        Some(v) => v,
        None => old,
    }
}

/// `old`, or `Some(new)` where one is supplied.
pub open spec fn replaced_opt(old: Option<Seq<char>>, new: Option<Seq<char>>) -> Option<
    Seq<char>,
> {
    match new {
        Some(v) => Some(v),
        None => old,
    }
}

/// The entry `c` with each supplied field put in place of its old value. The
/// id and the owner are not among the fields that can be supplied.
pub open spec fn patched(
    c: CodeView,
    content: Option<Seq<char>>,
    display_name: Option<Seq<char>>,
    icon_url: Option<Seq<char>>,
    website_url: Option<Seq<char>>,
) -> CodeView {
    CodeView {
        id: c.id,
        owner_id: c.owner_id,
        content: replaced(c.content, content),
        display_name: replaced(c.display_name, display_name),
        icon_url: replaced_opt(c.icon_url, icon_url),
        website_url: replaced_opt(c.website_url, website_url),
    }
}

/// A column of the table that an edit can write.
#[derive(Clone, Copy, Debug, PartialEq, Eq, Structural)]
pub enum Column {
    Content,
    DisplayName,
    IconUrl,
    WebsiteUrl,
}

/// One write of an edit: the new value of one column.
#[derive(Debug)]
pub struct FieldWrite {
    pub column: Column,
    pub value: String,
}

/// The name of a column in the table.
pub open spec fn column_name(column: Column) -> Seq<char> {
    match column {
        Column::Content => "content"@,
        Column::DisplayName => "display_name"@,
        Column::IconUrl => "icon_url"@,
        Column::WebsiteUrl => "website_url"@,
    }
}

/// The write of `column`, where a value is supplied for it.
pub open spec fn write_of(column: Column, value: Option<Seq<char>>) -> Seq<(Column, Seq<char>)> {
    match value {
        Some(v) => seq![(column, v)],
        None => Seq::empty(),
    }
}

/// The writes that an edit with these fields issues, in their order: one for
/// each supplied field.
pub open spec fn planned(
    content: Option<Seq<char>>,
    display_name: Option<Seq<char>>,
    icon_url: Option<Seq<char>>,
    website_url: Option<Seq<char>>,
) -> Seq<(Column, Seq<char>)> {
    write_of(Column::Content, content) + write_of(Column::DisplayName, display_name) + write_of(
        Column::IconUrl,
        icon_url,
    ) + write_of(Column::WebsiteUrl, website_url)
}

/// Number of column writes that an edit with these fields issues.
pub open spec fn edit_writes(
    content: Option<Seq<char>>,
    display_name: Option<Seq<char>>,
    icon_url: Option<Seq<char>>,
    website_url: Option<Seq<char>>,
) -> nat {
    planned(content, display_name, icon_url, website_url).len()
}

/// The values of a list of writes.
pub open spec fn writes_view(writes: Seq<FieldWrite>) -> Seq<(Column, Seq<char>)> {
    writes.map_values(|w: FieldWrite| (w.column, w.value@))
}

/// The table of entries: rows in insertion order, no id twice.
///
/// A table can be told to refuse writes after a given number of them, which
/// stands for a storage failure in the middle of an operation.
pub struct CodeStore {
    rows: Vec<Code>,
    writes_left: Option<u64>,
}

impl View for CodeStore {
    type V = Seq<CodeView>;

    closed spec fn view(&self) -> Seq<CodeView> {
        views(self.rows@)
    }
}

impl CodeStore {
    /// How many more writes the storage accepts; `None` where it never refuses.
    pub closed spec fn writes_left(&self) -> Option<u64> {
        self.writes_left
    }

    /// The table's invariant: no id occurs twice.
    pub open spec fn wf(&self) -> bool {
        distinct_ids(self@)
    }

    /// An empty table that never refuses a write.
    pub fn new() -> (r: Self)
        ensures
            r@ == Seq::<CodeView>::empty(),
            r.writes_left() == None::<u64>,
            r.wf(),
    {
        CodeStore { rows: Vec::new(), writes_left: None }
    }

    /// Number of rows, of all owners together.
    pub fn len(&self) -> (r: usize)
        ensures
            r == self@.len(),
    {
        self.rows.len()
    }

    /// From now on the storage accepts `writes` more writes and refuses the rest.
    pub fn fail_after(&mut self, writes: u64)
        ensures
            final(self)@ == old(self)@,
            final(self).writes_left() == Some(writes),
    {
        self.writes_left = Some(writes);
    }

    /// From now on the storage refuses no write.
    pub fn heal(&mut self)
        ensures
            final(self)@ == old(self)@,
            final(self).writes_left() == None::<u64>,
    {
        self.writes_left = None;
    }

    /// Index of the row named `id` that `owner_id` owns.
    fn find(&self, id: &String, owner_id: &String) -> (r: Option<usize>)
        requires
            self.wf(),
        ensures
            r is Some <==> holds(self@, id@, owner_id@),
            r matches Some(i) ==> i < self@.len() && i == place(self@, id@, owner_id@),
    {
        let mut i: usize = 0;
        while i < self.rows.len()
            invariant
                i <= self.rows.len(),
                self.wf(),
                forall|k: int| 0 <= k < i ==> !keyed(#[trigger] self@[k], id@, owner_id@),
            decreases self.rows.len() - i,
        {
            if self.rows[i].id == *id && self.rows[i].owner_id == *owner_id {
                assert(keyed(self@[i as int], id@, owner_id@));
                return Some(i);
            }
            i += 1;
        }
        None
    }

    /// Whether some row carries `id`.
    fn has_id(&self, id: &String) -> (r: bool)
        ensures
            r == id_taken(self@, id@),
    {
        let mut i: usize = 0;
        while i < self.rows.len()
            invariant
                i <= self.rows.len(),
                forall|k: int| 0 <= k < i ==> (#[trigger] self@[k]).id != id@,
            decreases self.rows.len() - i,
        {
            if self.rows[i].id == *id {
                assert(self@[i as int].id == id@);
                return true;
            }
            i += 1;
        }
        false
    }

    /// Asks the storage for one write.
    fn spend(&mut self) -> (ok: bool)
        ensures
            ok == accepts(old(self).writes_left(), 1),
            ok ==> final(self).writes_left() == after_writes(old(self).writes_left(), 1),
            !ok ==> final(self).writes_left() == Some(0u64),
            final(self).rows == old(self).rows,
    {
        match self.writes_left {
            None => true,
            Some(k) => {
                if k == 0 {
                    false
                } else {
                    self.writes_left = Some(k - 1);
                    true
                }
            },
        }
    }
}

impl Column {
    /// The name of this column in the table.
    pub fn name(&self) -> (r: &'static str)
        ensures
            r@ == column_name(*self),
    {
        match self {
            Column::Content => "content",
            Column::DisplayName => "display_name",
            Column::IconUrl => "icon_url",
            Column::WebsiteUrl => "website_url",
        }
    }
}

/// Appends the write of `column` to `plan`, where a value is supplied.
fn plan_write(plan: &mut Vec<FieldWrite>, column: Column, value: &Option<String>)
    ensures
        writes_view(final(plan)@) == writes_view(old(plan)@) + write_of(column, text_view(*value)),
{
    match value {
        Some(v) => {
            plan.push(FieldWrite { column, value: v.clone() });
            assert(writes_view(plan@) =~= writes_view(old(plan)@) + seq![(column, v@)]);
        },
        None => {
            assert(writes_view(plan@) =~= writes_view(old(plan)@) + Seq::empty());
        },
    }
}

/// The writes that an edit with these fields issues, in the order in which
/// they are sent to the storage inside one transaction.
pub fn edit_plan(
    content: &Option<String>,
    display_name: &Option<String>,
    icon_url: &Option<String>,
    website_url: &Option<String>,
) -> (r: Vec<FieldWrite>)
    ensures
        writes_view(r@) == planned(
            text_view(*content),
            text_view(*display_name),
            text_view(*icon_url),
            text_view(*website_url),
        ),
{
    let mut plan: Vec<FieldWrite> = Vec::new();
    assert(writes_view(plan@) =~= Seq::empty());
    plan_write(&mut plan, Column::Content, content);
    plan_write(&mut plan, Column::DisplayName, display_name);
    plan_write(&mut plan, Column::IconUrl, icon_url);
    plan_write(&mut plan, Column::WebsiteUrl, website_url);
    assert(writes_view(plan@) =~= planned(
        text_view(*content),
        text_view(*display_name),
        text_view(*icon_url),
        text_view(*website_url),
    ));
    plan
}

impl Code {
    /// A new entry under the freshly generated `id`.
    ///
    /// Fails with `InvalidId` where the id does not have `ID_LENGTH`
    /// characters.
    pub fn new(
        id: String,
        owner_id: String,
        content: String,
        display_name: String,
        icon_url: Option<String>,
        website_url: Option<String>,
    ) -> (r: Result<Code, StoreError>)
        ensures
            match r {
                Ok(c) => id@.len() == ID_LENGTH && c == (Code {
                    id,
                    owner_id,
                    content,
                    display_name,
                    icon_url,
                    website_url,
                }),
                Err(e) => id@.len() != ID_LENGTH && e == StoreError::InvalidId,
            },
    {
        if id.as_str().unicode_len() != ID_LENGTH {
            return Err(StoreError::InvalidId);
        }
        Ok(Code { id, owner_id, content, display_name, icon_url, website_url })
    }

    /// Puts each supplied field in place of its old value; the id and the
    /// owner stay. This is what an edit does to an entry once the storage
    /// has taken all its writes.
    pub fn apply(
        &mut self,
        content: Option<String>,
        display_name: Option<String>,
        icon_url: Option<String>,
        website_url: Option<String>,
    )
        ensures
            final(self)@ == patched(
                old(self)@,
                text_view(content),
                text_view(display_name),
                text_view(icon_url),
                text_view(website_url),
            ),
            content is None && display_name is None && icon_url is None && website_url is None
                ==> *final(self) == *old(self),
    {
        if let Some(v) = content {
            self.content = v;
        }
        if let Some(v) = display_name {
            self.display_name = v;
        }
        if let Some(v) = icon_url {
            self.icon_url = Some(v);
        }
        if let Some(v) = website_url {
            self.website_url = Some(v);
        }
    }

    /// The entry named `id` that `owner_id` owns.
    ///
    /// An entry of another owner is reported exactly as a missing one.
    pub fn get(store: &CodeStore, id: String, owner_id: String) -> (r: Result<Code, StoreError>)
        requires
            store.wf(),
        ensures
            match r {
                Ok(c) => lookup(store@, id@, owner_id@) == Ok::<CodeView, StoreError>(c@),
                Err(e) => lookup(store@, id@, owner_id@) == Err::<CodeView, StoreError>(e),
            },
    {
        match store.find(&id, &owner_id) {
            Some(i) => Ok(store.rows[i].clone()),
            None => Err(StoreError::NotFound),
        }
    }

    /// All entries that `owner_id` owns, oldest first.
    pub fn get_many(store: &CodeStore, owner_id: String) -> (r: Vec<Code>)
        ensures
            views(r@) == owned(store@, owner_id@),
    {
        let mut out: Vec<Code> = Vec::new();
        let mut i: usize = 0;
        assert(store@.take(0) =~= Seq::<CodeView>::empty());
        while i < store.rows.len()
            invariant
                i <= store.rows.len(),
                views(out@) == owned(store@.take(i as int), owner_id@),
            decreases store.rows.len() - i,
        {
            proof {
                assert(store@.take(i + 1) =~= store@.take(i as int).push(store@[i as int]));
                store@.take(i as int).lemma_filter_push(
                    store@[i as int],
                    |c: CodeView| c.owner_id == owner_id@,
                );
            }
            if store.rows[i].owner_id == owner_id {
                let ghost before = out@;
                out.push(store.rows[i].clone());
                assert(views(out@) =~= views(before).push(store@[i as int]));
            }
            i += 1;
        }
        assert(store@.take(i as int) =~= store@);
        out
    }

    /// Stores a copy of this entry after all the others.
    ///
    /// Fails with `Conflict` where the id is already in the table, whoever
    /// owns it, and with `Fault` where the storage refuses the write.
    pub fn insert(&self, store: &mut CodeStore) -> (r: Result<(), StoreError>)
        requires
            old(store).wf(),
        ensures
            final(store).wf(),
            r == insert_result(old(store)@, old(store).writes_left(), self@),
            r is Ok ==> final(store)@ == old(store)@.push(self@) && final(store).writes_left()
                == after_writes(old(store).writes_left(), 1),
            r is Err ==> final(store)@ == old(store)@,
            r == Err::<(), StoreError>(StoreError::Conflict) ==> final(store).writes_left() == old(
                store,
            ).writes_left(),
            r == Err::<(), StoreError>(StoreError::Fault) ==> final(store).writes_left() == Some(
                0u64,
            ),
    {
        if store.has_id(&self.id) {
            return Err(StoreError::Conflict);
        }
        if !store.spend() {
            return Err(StoreError::Fault);
        }
        let ghost before = store.rows@;
        store.rows.push(self.clone());
        assert(views(store.rows@) =~= views(before).push(self@));
        Ok(())
    }

    /// Stores a new entry under the freshly generated `id` and returns it.
    ///
    /// The id has to have `ID_LENGTH` characters and must not be in use; the
    /// owner is the authenticated user, never a value taken from a request.
    pub fn create(
        store: &mut CodeStore,
        id: String,
        owner_id: String,
        content: String,
        display_name: String,
        icon_url: Option<String>,
        website_url: Option<String>,
    ) -> (r: Result<Code, StoreError>)
        requires
            old(store).wf(),
        ensures
            final(store).wf(),
            match r {
                Ok(c) => {
                    &&& c@ == (CodeView {
                        id: id@,
                        owner_id: owner_id@,
                        content: content@,
                        display_name: display_name@,
                        icon_url: text_view(icon_url),
                        website_url: text_view(website_url),
                    })
                    &&& id@.len() == ID_LENGTH
                    &&& insert_result(old(store)@, old(store).writes_left(), c@) is Ok
                    &&& final(store)@ == old(store)@.push(c@)
                    &&& final(store).writes_left() == after_writes(old(store).writes_left(), 1)
                },
                Err(e) => {
                    &&& final(store)@ == old(store)@
                    &&& e == if id@.len() != ID_LENGTH {
                        StoreError::InvalidId
                    } else if id_taken(old(store)@, id@) {
                        StoreError::Conflict
                    } else {
                        StoreError::Fault
                    }
                    &&& e == StoreError::Fault ==> !accepts(old(store).writes_left(), 1)
                        && final(store).writes_left() == Some(0u64)
                    &&& e != StoreError::Fault ==> final(store).writes_left() == old(
                        store,
                    ).writes_left()
                },
            },
    {
        let code = match Code::new(id, owner_id, content, display_name, icon_url, website_url) {
            Ok(code) => code,
            Err(e) => {
                return Err(e);
            },
        };
        match code.insert(store) {
            Ok(()) => Ok(code),
            Err(e) => Err(e),
        }
    }

    /// Removes the entry with this entry's id and owner.
    ///
    /// Fails with `NotFound` where the table holds no such entry, so a second
    /// removal reports `NotFound`; fails with `Fault` where the storage refuses
    /// the write.
    pub fn delete(&self, store: &mut CodeStore) -> (r: Result<(), StoreError>)
        requires
            old(store).wf(),
        ensures
            final(store).wf(),
            r == delete_result(old(store)@, old(store).writes_left(), self@),
            r is Ok ==> final(store)@ == old(store)@.remove(
                place(old(store)@, self@.id, self@.owner_id),
            ) && final(store).writes_left() == after_writes(old(store).writes_left(), 1),
            r is Ok ==> !holds(final(store)@, self@.id, self@.owner_id),
            r is Err ==> final(store)@ == old(store)@,
            r == Err::<(), StoreError>(StoreError::NotFound) ==> final(store).writes_left() == old(
                store,
            ).writes_left(),
            r == Err::<(), StoreError>(StoreError::Fault) ==> final(store).writes_left() == Some(
                0u64,
            ),
    {
        let i = match store.find(&self.id, &self.owner_id) {
            Some(i) => i,
            None => {
                return Err(StoreError::NotFound);
            },
        };
        if !store.spend() {
            return Err(StoreError::Fault);
        }
        let ghost before = store.rows@;
        store.rows.remove(i);
        assert(views(store.rows@) =~= views(before).remove(i as int));
        Ok(())
    }

    /// Puts each supplied field in place of its old value, in the table and
    /// in `self`, all of them or none.
    ///
    /// The row is the one with this entry's id and owner. Each supplied field
    /// is one write; where the storage refuses any of them, the table and
    /// `self` are left exactly as they were.
    pub fn edit(
        &mut self,
        store: &mut CodeStore,
        content: Option<String>,
        display_name: Option<String>,
        icon_url: Option<String>,
        website_url: Option<String>,
    ) -> (r: Result<&Code, StoreError>)
        requires
            old(store).wf(),
        ensures
            final(store).wf(),
            match r {
                Ok(c) => *c == *final(self) && edit_result(
                    old(store)@,
                    old(store).writes_left(),
                    old(self)@,
                    edit_writes(
                        text_view(content),
                        text_view(display_name),
                        text_view(icon_url),
                        text_view(website_url),
                    ),
                ) is Ok,
                Err(e) => edit_result(
                    old(store)@,
                    old(store).writes_left(),
                    old(self)@,
                    edit_writes(
                        text_view(content),
                        text_view(display_name),
                        text_view(icon_url),
                        text_view(website_url),
                    ),
                ) == Err::<(), StoreError>(e),
            },
            r is Ok ==> {
                let at = place(old(store)@, old(self)@.id, old(self)@.owner_id);
                &&& final(self)@ == patched(
                    old(self)@,
                    text_view(content),
                    text_view(display_name),
                    text_view(icon_url),
                    text_view(website_url),
                )
                &&& final(store)@ == old(store)@.update(
                    at,
                    patched(
                        old(store)@[at],
                        text_view(content),
                        text_view(display_name),
                        text_view(icon_url),
                        text_view(website_url),
                    ),
                )
                &&& final(store).writes_left() == after_writes(
                    old(store).writes_left(),
                    edit_writes(
                        text_view(content),
                        text_view(display_name),
                        text_view(icon_url),
                        text_view(website_url),
                    ),
                )
            },
            r is Err ==> *final(self) == *old(self) && final(store)@ == old(store)@,
            r matches Err(StoreError::NotFound) ==> final(store).writes_left() == old(
                store,
            ).writes_left(),
            r matches Err(StoreError::Fault) ==> final(store).writes_left() == Some(0u64),
            content is None && display_name is None && icon_url is None && website_url is None
                ==> *final(self) == *old(self) && final(store)@ == old(store)@
                && final(store).writes_left() == old(store).writes_left(),
    {
        let i = match store.find(&self.id, &self.owner_id) {
            Some(i) => i,
            None => {
                return Err(StoreError::NotFound);
            },
        };
        let plan = edit_plan(&content, &display_name, &icon_url, &website_url);
        let ghost left = store.writes_left();
        let ghost writes = edit_writes(
            text_view(content),
            text_view(display_name),
            text_view(icon_url),
            text_view(website_url),
        );
        assert(writes_view(plan@).len() == plan@.len());
        let mut k: usize = 0;
        while k < plan.len()
            invariant
                k <= plan.len() == writes,
                writes == edit_writes(
                    text_view(content),
                    text_view(display_name),
                    text_view(icon_url),
                    text_view(website_url),
                ),
                old(store).wf(),
                store@ == old(store)@,
                store.rows == old(store).rows,
                left == old(store).writes_left(),
                holds(old(store)@, self@.id, self@.owner_id),
                *self == *old(self),
                accepts(left, k as nat),
                store.writes_left() == after_writes(left, k as nat),
            decreases plan.len() - k,
        {
            if !store.spend() {
                return Err(StoreError::Fault);
            }
            k += 1;
        }
        let mut row = store.rows[i].clone();
        row.apply(
            copy_text(&content),
            copy_text(&display_name),
            copy_text(&icon_url),
            copy_text(&website_url),
        );
        self.apply(content, display_name, icon_url, website_url);
        let ghost before = store.rows@;
        let ghost new_row = row@;
        store.rows.set(i, row);
        assert(views(store.rows@) =~= views(before).update(i as int, new_row));
        Ok(self)
    }
}

/// What inserting `c` reports.
pub open spec fn insert_result(rows: Seq<CodeView>, left: Option<u64>, c: CodeView) -> Result<
    (),
    StoreError,
> {
    if id_taken(rows, c.id) {
        Err(StoreError::Conflict)
    } else if !accepts(left, 1) {
        Err(StoreError::Fault)
    } else {
        Ok(())
    }
}

/// What deleting the entry with the id and owner of `c` reports.
pub open spec fn delete_result(rows: Seq<CodeView>, left: Option<u64>, c: CodeView) -> Result<
    (),
    StoreError,
> {
    if !holds(rows, c.id, c.owner_id) {
        Err(StoreError::NotFound)
    } else if !accepts(left, 1) {
        Err(StoreError::Fault)
    } else {
        Ok(())
    }
}

/// What an edit of the entry with the id and owner of `c` reports, where it
/// issues `writes` column writes.
pub open spec fn edit_result(
    rows: Seq<CodeView>,
    left: Option<u64>,
    c: CodeView,
    writes: nat,
) -> Result<(), StoreError> {
    if !holds(rows, c.id, c.owner_id) {
        Err(StoreError::NotFound)
    } else if !accepts(left, writes) {
        Err(StoreError::Fault)
    } else {
        Ok(())
    }
}

/// An entry is visible to its owner alone: looked up under any other user,
/// its id is reported as not found, exactly as an id that no row carries.
pub proof fn lemma_lookup_by_other_owner(rows: Seq<CodeView>, at: int, other: Seq<char>)
    requires
        distinct_ids(rows),
        0 <= at < rows.len(),
        other != rows[at].owner_id,
    ensures
        lookup(rows, rows[at].id, other) == Err::<CodeView, StoreError>(StoreError::NotFound),
{
    if holds(rows, rows[at].id, other) {
        let j = place(rows, rows[at].id, other);
        assert(rows[j].id == rows[at].id);
        assert(j != at);
    }
}

/// Looked up under its own id and owner, an entry is found as it is stored.
pub proof fn lemma_lookup_by_owner(rows: Seq<CodeView>, at: int)
    requires
        distinct_ids(rows),
        0 <= at < rows.len(),
    ensures
        lookup(rows, rows[at].id, rows[at].owner_id) == Ok::<CodeView, StoreError>(rows[at]),
{
    assert(keyed(rows[at], rows[at].id, rows[at].owner_id));
    let j = place(rows, rows[at].id, rows[at].owner_id);
    if j != at {
        assert(rows[j].id == rows[at].id);
    }
}

/// An edit that supplies no field issues no write and changes neither the
/// entry nor the row.
pub proof fn lemma_edit_without_fields(rows: Seq<CodeView>, at: int, c: CodeView, left: Option<u64>)
    requires
        0 <= at < rows.len(),
    ensures
        edit_writes(None, None, None, None) == 0,
        accepts(left, 0),
        after_writes(left, 0) == left,
        patched(c, None, None, None, None) == c,
        rows.update(at, patched(rows[at], None, None, None, None)) == rows,
{
    assert(rows.update(at, patched(rows[at], None, None, None, None)) =~= rows);
}

/// An edit never moves an entry to another id or another owner.
pub proof fn lemma_edit_keeps_owner(
    c: CodeView,
    content: Option<Seq<char>>,
    display_name: Option<Seq<char>>,
    icon_url: Option<Seq<char>>,
    website_url: Option<Seq<char>>,
)
    ensures
        patched(c, content, display_name, icon_url, website_url).id == c.id,
        patched(c, content, display_name, icon_url, website_url).owner_id == c.owner_id,
{
}

/// After an entry was deleted, looking it up and deleting it again both
/// report that it was not found.
pub proof fn lemma_deleted_is_gone(rows: Seq<CodeView>, c: CodeView, left: Option<u64>)
    requires
        distinct_ids(rows),
        holds(rows, c.id, c.owner_id),
    ensures
        ({
            let after = rows.remove(place(rows, c.id, c.owner_id));
            &&& lookup(after, c.id, c.owner_id) == Err::<CodeView, StoreError>(
                StoreError::NotFound,
            )
            &&& delete_result(after, left, c) == Err::<(), StoreError>(StoreError::NotFound)
        }),
{
    let at = place(rows, c.id, c.owner_id);
    let after = rows.remove(at);
    if holds(after, c.id, c.owner_id) {
        let j = place(after, c.id, c.owner_id);
        let k = if j < at { j } else { j + 1 };
        assert(after[j] == rows[k]);
        assert(rows[k].id == rows[at].id);
        assert(k != at);
    }
}

} // verus!
