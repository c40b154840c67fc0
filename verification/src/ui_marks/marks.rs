//! Marks: named positions in a tab's output (bookmarks, errors, commands) and the
//! manager that creates, finds and navigates them.
use vstd::prelude::*;
use vstd::string::StringSliceAdditionalSpecFns;
use vstd::utf8::encode_utf8;
use crate::text::{
    decimal, digit_chars, push_digits, first_word, first_word_bounds, has_prefix, has_infix, starts_with_bytes, contains_bytes,
    lemma_decimal_injective,
};

verus! {

#[verifier::external_type_specification]
#[verifier::external_body]
pub struct ExSystemTime(std::time::SystemTime);

/// `SystemTime` is `Copy`: its clone is the same instant.
pub assume_specification[<std::time::SystemTime as std::clone::Clone>::clone](t: &std::time::SystemTime) -> (r: std::time::SystemTime)
    ensures
        r == *t,
;

/// The current wall-clock time (`std::time::SystemTime::now`); nothing is stated of it.
#[verifier::external_body]
fn system_now() -> (t: std::time::SystemTime) {
    std::time::SystemTime::now()
}

#[derive(Debug, Clone, Copy, PartialEq, Eq, Structural)]
pub enum MarkType {
    Global,
    Bookmark,
    Search,
    Command,
    Jump,
}

/// A remembered position of a tab.
#[derive(Debug, Clone)]
pub struct Mark {
    pub id: String,
    pub mark_type: MarkType,
    pub name: String,
    pub color: [u8; 3],
    pub row: usize,
    pub col: usize,
    pub tab_id: usize,
    pub line_content: String,
    pub created_at: std::time::SystemTime,
    pub description: Option<String>,
}

/// The colour a mark of each type is drawn with.
pub open spec fn mark_color(t: MarkType) -> [u8; 3] {
    match t {
        MarkType::Global => [255, 215, 0],
        MarkType::Bookmark => [0, 191, 255],
        MarkType::Search => [50, 205, 50],
        MarkType::Command => [255, 105, 180],
        MarkType::Jump => [147, 112, 219],
    }
}

impl Mark {
    pub fn new(
        id: String,
        mark_type: MarkType,
        name: String,
        row: usize,
        col: usize,
        tab_id: usize,
        line_content: String,
    ) -> (m: Self)
        ensures
            m.id == id,
            m.mark_type == mark_type,
            m.name == name,
            m.color == mark_color(mark_type),
            m.row == row,
            m.col == col,
            m.tab_id == tab_id,
            m.line_content == line_content,
            m.description is None,
    {
        let color: [u8; 3] = match mark_type {
            MarkType::Global => [255, 215, 0],
            MarkType::Bookmark => [0, 191, 255],
            MarkType::Search => [50, 205, 50],
            MarkType::Command => [255, 105, 180],
            MarkType::Jump => [147, 112, 219],
        };
        Mark {
            id,
            mark_type,
            name,
            color,
            row,
            col,
            tab_id,
            line_content,
            created_at: system_now(),
            description: None,
        }
    }

    pub fn with_description(self, description: String) -> (m: Self)
        ensures
            m == (Mark { description: Some(description), ..self }),
    {
        let mut m = self;
        m.description = Some(description);
        m
    }
}

/// `mark_<n>`: the id of the `n`-th mark created.
pub open spec fn mark_id_chars(n: nat) -> Seq<char> {
    seq!['m', 'a', 'r', 'k', '_'] + digit_chars(n)
}

/// `auto_<row>_<col>`: the name of an automatic mark.
pub open spec fn auto_name_chars(row: nat, col: nat) -> Seq<char> {
    seq!['a', 'u', 't', 'o', '_'] + digit_chars(row) + seq!['_'] + digit_chars(col)
}

proof fn lemma_mark_id_injective(a: nat, b: nat)
    requires
        mark_id_chars(a) == mark_id_chars(b),
    ensures
        a == b,
{
    assert(mark_id_chars(a).skip(5) =~= digit_chars(a));
    assert(mark_id_chars(b).skip(5) =~= digit_chars(b));
    assert(decimal(a) =~= decimal(b)) by {
        assert(digit_chars(a).len() == digit_chars(b).len());
        assert forall|i: int| 0 <= i < decimal(a).len() implies decimal(a)[i] == decimal(b)[i] by {
            assert(digit_chars(a)[i] == digit_chars(b)[i]);
        }
    }
    lemma_decimal_injective(a, b);
}

/// Abstract state of a [`MarkManager`].
pub struct MarkManagerModel {
    pub marks: Seq<Mark>,
    pub next_mark_id: usize,
    pub enabled: bool,
    pub auto_mark_commands: Seq<Seq<char>>,
}

/// `id` is `mark_<k>` for some `k` already handed out.
pub open spec fn issued_id(id: Seq<char>, next: usize) -> bool {
    exists|k: nat| 1 <= k < next && id == mark_id_chars(k)
}

impl MarkManagerModel {
    /// Ids are handed out from 1 on; every mark has one handed out earlier, and no
    /// two marks share an id.
    pub open spec fn wf(self) -> bool {
        &&& self.next_mark_id >= 1
        &&& forall|i: int| 0 <= i < self.marks.len() ==> issued_id((#[trigger] self.marks[i]).id@, self.next_mark_id)
        &&& forall|i: int, j: int|
            0 <= i < j < self.marks.len() ==> (#[trigger] self.marks[i]).id@ != (#[trigger] self.marks[j]).id@
    }
}

/// Index of the mark with id `id`, if any.
pub open spec fn id_index(marks: Seq<Mark>, id: Seq<char>) -> Option<int> {
    if exists|i: int| 0 <= i < marks.len() && (#[trigger] marks[i]).id@ == id {
        Some(choose|i: int| 0 <= i < marks.len() && (#[trigger] marks[i]).id@ == id)
    } else {
        None
    }
}

/// The marks of tab `tab_id` on rows `lo..=hi`, in creation order.
pub open spec fn marks_in(marks: Seq<Mark>, tab_id: usize, lo: usize, hi: usize) -> Seq<Mark> {
    marks.filter(|m: Mark| m.tab_id == tab_id && lo <= m.row <= hi)
}

/// The marks of tab `tab_id` exactly at (`row`, `col`).
pub open spec fn marks_at(marks: Seq<Mark>, tab_id: usize, row: usize, col: usize) -> Seq<Mark> {
    marks.filter(|m: Mark| m.tab_id == tab_id && m.row == row && m.col == col)
}

/// Commands whose output is marked automatically by default.
pub open spec fn default_auto_commands() -> Seq<Seq<char>> {
    seq!["git"@, "make"@, "cargo"@, "npm"@, "pytest"@]
}

/// Creates, finds and navigates marks.
pub struct MarkManager {
    marks: Vec<Mark>,
    next_mark_id: usize,
    enabled: bool,
    auto_mark_commands: Vec<String>,
}

impl View for MarkManager {
    type V = MarkManagerModel;

    closed spec fn view(&self) -> MarkManagerModel {
        MarkManagerModel {
            marks: self.marks@,
            next_mark_id: self.next_mark_id,
            enabled: self.enabled,
            auto_mark_commands: Seq::new(self.auto_mark_commands@.len(), |i: int| self.auto_mark_commands@[i]@),
        }
    }
}


/// Index of the first mark with id `id` (by the uniqueness of ids, the only one).
fn find_index(marks: &Vec<Mark>, id: &str) -> (r: Option<usize>)
    requires
        forall|i: int, j: int| 0 <= i < j < marks@.len() ==> (#[trigger] marks@[i]).id@ != (#[trigger] marks@[j]).id@,
    ensures
        match r {
            Some(i) => id_index(marks@, id@) == Some(i as int) && i < marks@.len(),
            None => id_index(marks@, id@) is None,
        },
{
    let key: String = id.to_owned();
    let mut i: usize = 0;
    while i < marks.len()
        invariant
            i <= marks@.len(),
            key@ == id@,
            forall|k: int| 0 <= k < i ==> (#[trigger] marks@[k]).id@ != id@,
            forall|a: int, b: int| 0 <= a < b < marks@.len() ==> (#[trigger] marks@[a]).id@ != (#[trigger] marks@[b]).id@,
        decreases marks@.len() - i,
    {
        if marks[i].id == key {
            proof {
                let c = choose|j: int| 0 <= j < marks@.len() && (#[trigger] marks@[j]).id@ == id@;
                if c != i as int {
                    if c < i {
                        assert(marks@[c].id@ != id@);
                    } else {
                        assert(marks@[i as int].id@ != marks@[c].id@);
                    }
                }
            }
            return Some(i);
        }
        i = i + 1;
    }
    None
}

impl MarkManager {
    pub fn new() -> (m: Self)
        ensures
            m@.wf(),
            m@.marks.len() == 0,
            m@.next_mark_id == 1,
            m@.enabled,
            m@.auto_mark_commands == default_auto_commands(),
    {
        let mut cmds: Vec<String> = Vec::new();
        cmds.push("git".to_owned());
        cmds.push("make".to_owned());
        cmds.push("cargo".to_owned());
        cmds.push("npm".to_owned());
        cmds.push("pytest".to_owned());
        let m = MarkManager { marks: Vec::new(), next_mark_id: 1, enabled: true, auto_mark_commands: cmds };
        assert(m@.auto_mark_commands =~= default_auto_commands());
        m
    }

    /// Creates a mark with the next id `mark_<n>` and returns it.
    pub fn create_mark(
        &mut self,
        mark_type: MarkType,
        name: String,
        row: usize,
        col: usize,
        tab_id: usize,
        line_content: String,
    ) -> (r: &Mark)
        requires
            old(self)@.wf(),
            old(self)@.next_mark_id < usize::MAX,
        ensures
            final(self)@.wf(),
            final(self)@.next_mark_id == old(self)@.next_mark_id + 1,
            final(self)@.enabled == old(self)@.enabled,
            final(self)@.auto_mark_commands == old(self)@.auto_mark_commands,
            final(self)@.marks.len() == old(self)@.marks.len() + 1,
            final(self)@.marks.drop_last() == old(self)@.marks,
            *r == final(self)@.marks.last(),
            r.id@ == mark_id_chars(old(self)@.next_mark_id as nat),
            r.mark_type == mark_type,
            r.name == name,
            r.color == mark_color(mark_type),
            r.row == row,
            r.col == col,
            r.tab_id == tab_id,
            r.line_content == line_content,
            r.description is None,
    {
        let n = self.next_mark_id;
        let mut id = String::new();
        id.push('m');
        id.push('a');
        id.push('r');
        id.push('k');
        id.push('_');
        push_digits(&mut id, n as u64);
        assert(id@ =~= mark_id_chars(n as nat));
        self.next_mark_id = n + 1;
        let mark = Mark::new(id, mark_type, name, row, col, tab_id, line_content);
        let ghost before = self.marks@;
        self.marks.push(mark);
        proof {
            assert forall|i: int| 0 <= i < self@.marks.len() implies issued_id(
                (#[trigger] self@.marks[i]).id@,
                self@.next_mark_id,
            ) by {
                if i < before.len() {
                    assert(issued_id(before[i].id@, n));
                    let k = choose|k: nat| 1 <= k < n && before[i].id@ == mark_id_chars(k);
                    assert(self@.marks[i] == before[i]);
                    assert(1 <= k < self@.next_mark_id && self@.marks[i].id@ == mark_id_chars(k));
                    assert(issued_id(self@.marks[i].id@, self@.next_mark_id));
                } else {
                    assert(self@.marks[i].id@ == mark_id_chars(n as nat));
                    assert(1 <= (n as nat) < self@.next_mark_id);
                    assert(issued_id(self@.marks[i].id@, self@.next_mark_id));
                }
            }
            assert forall|i: int, j: int| 0 <= i < j < self@.marks.len() implies (#[trigger] self@.marks[i]).id@
                != (#[trigger] self@.marks[j]).id@ by {
                if j == before.len() {
                    assert(issued_id(before[i].id@, n));
                    let k = choose|k: nat| 1 <= k < n && before[i].id@ == mark_id_chars(k);
                    if before[i].id@ == mark_id_chars(n as nat) {
                        lemma_mark_id_injective(k, n as nat);
                    }
                } else {
                    assert(self@.marks[i] == before[i]);
                    assert(self@.marks[j] == before[j]);
                }
            }
            assert(self@.marks.drop_last() =~= before);
        }
        let last = self.marks.len() - 1;
        &self.marks[last]
    }

    pub fn create_global_mark(&mut self, name: String, row: usize, col: usize, tab_id: usize, line_content: String) -> (r: &Mark)
        requires
            old(self)@.wf(),
            old(self)@.next_mark_id < usize::MAX,
        ensures
            final(self)@.wf(),
            final(self)@.next_mark_id == old(self)@.next_mark_id + 1,
            final(self)@.enabled == old(self)@.enabled,
            final(self)@.auto_mark_commands == old(self)@.auto_mark_commands,
            final(self)@.marks.len() == old(self)@.marks.len() + 1,
            final(self)@.marks.drop_last() == old(self)@.marks,
            *r == final(self)@.marks.last(),
            r.id@ == mark_id_chars(old(self)@.next_mark_id as nat),
            r.mark_type == MarkType::Global,
            r.name == name,
            r.color == mark_color(MarkType::Global),
            r.row == row,
            r.col == col,
            r.tab_id == tab_id,
            r.line_content == line_content,
            r.description is None,
    {
        self.create_mark(MarkType::Global, name, row, col, tab_id, line_content)
    }

    pub fn create_bookmark(&mut self, name: String, row: usize, col: usize, tab_id: usize, line_content: String) -> (r: &Mark)
        requires
            old(self)@.wf(),
            old(self)@.next_mark_id < usize::MAX,
        ensures
            final(self)@.wf(),
            final(self)@.next_mark_id == old(self)@.next_mark_id + 1,
            final(self)@.enabled == old(self)@.enabled,
            final(self)@.auto_mark_commands == old(self)@.auto_mark_commands,
            final(self)@.marks.len() == old(self)@.marks.len() + 1,
            final(self)@.marks.drop_last() == old(self)@.marks,
            *r == final(self)@.marks.last(),
            r.id@ == mark_id_chars(old(self)@.next_mark_id as nat),
            r.mark_type == MarkType::Bookmark,
            r.name == name,
            r.color == mark_color(MarkType::Bookmark),
            r.row == row,
            r.col == col,
            r.tab_id == tab_id,
            r.line_content == line_content,
            r.description is None,
    {
        self.create_mark(MarkType::Bookmark, name, row, col, tab_id, line_content)
    }

    /// The mark with id `id`.
    pub fn get_mark(&self, id: &str) -> (r: Option<&Mark>)
        requires
            self@.wf(),
        ensures
            r == (match id_index(self@.marks, id@) {
                Some(i) => Some(&self@.marks[i]),
                None => None,
            }),
    {
        match find_index(&self.marks, id) {
            Some(i) => Some(&self.marks[i]),
            None => None,
        }
    }

    /// The mark with id `id`, for changing it.
    pub fn get_mark_mut(&mut self, id: &str) -> (r: Option<&mut Mark>)
        requires
            old(self)@.wf(),
        ensures
            r is Some <==> id_index(old(self)@.marks, id@) is Some,
            match id_index(old(self)@.marks, id@) {
                Some(i) => *r->0 == old(self)@.marks[i] && final(self)@ == (MarkManagerModel {
                    marks: old(self)@.marks.update(i, *final(r->0)),
                    ..old(self)@
                }),
                None => final(self)@ == old(self)@,
            },
    {
        match find_index(&self.marks, id) {
            Some(i) => Some(&mut self.marks[i]),
            None => None,
        }
    }
}



/// A mark of tab `tab_id` on a row after `row`.
pub open spec fn is_after(m: Mark, tab_id: usize, row: usize) -> bool {
    m.tab_id == tab_id && m.row > row
}

/// A mark of tab `tab_id` on a row before `row`.
pub open spec fn is_before(m: Mark, tab_id: usize, row: usize) -> bool {
    m.tab_id == tab_id && m.row < row
}

/// The position of a nearest mark satisfying `p`: `closest_row` is the row wanted
/// among the candidates (smallest for `next`, largest otherwise).
pub open spec fn nearest_ok(marks: Seq<Mark>, p: spec_fn(Mark) -> bool, next: bool, r: Option<(usize, usize)>) -> bool {
    match r {
        Some((row, col)) => {
            &&& exists|i: int| 0 <= i < marks.len() && p(#[trigger] marks[i]) && marks[i].row == row && marks[i].col == col
            &&& forall|i: int| 0 <= i < marks.len() && p(#[trigger] marks[i]) ==> if next {
                row <= marks[i].row
            } else {
                marks[i].row <= row
            }
        },
        None => forall|i: int| 0 <= i < marks.len() ==> !p(#[trigger] marks[i]),
    }
}

/// The first word of a command line asks for automatic marks: it contains one of
/// the configured command names.
pub open spec fn auto_marked(cmds: Seq<Seq<char>>, line: Seq<u8>) -> bool {
    exists|i: int| 0 <= i < cmds.len() && has_infix(first_word(line), encode_utf8(#[trigger] cmds[i]))
}

/// `error`
pub open spec fn error_lower() -> Seq<u8> {
    seq![101u8, 114, 114, 111, 114]
}

/// `ERROR`
pub open spec fn error_upper() -> Seq<u8> {
    seq![69u8, 82, 82, 79, 82]
}

/// `failed`
pub open spec fn failed_word() -> Seq<u8> {
    seq![102u8, 97, 105, 108, 101, 100]
}

/// `warning`
pub open spec fn warning_lower() -> Seq<u8> {
    seq![119u8, 97, 114, 110, 105, 110, 103]
}

/// `WARNING`
pub open spec fn warning_upper() -> Seq<u8> {
    seq![87u8, 65, 82, 78, 73, 78, 71]
}

/// The type of an automatic mark for an output line: errors (and failures) are
/// global marks, warnings search marks, the rest command marks.
pub open spec fn auto_mark_type(line: Seq<u8>) -> MarkType {
    if has_prefix(line, error_lower()) || has_prefix(line, error_upper()) || has_infix(line, failed_word()) {
        MarkType::Global
    } else if has_prefix(line, warning_lower()) || has_prefix(line, warning_upper()) {
        MarkType::Search
    } else {
        MarkType::Command
    }
}

impl MarkManager {
    /// Removes the mark with id `id`; `true` when there was one.
    pub fn remove_mark(&mut self, id: &str) -> (removed: bool)
        requires
            old(self)@.wf(),
        ensures
            final(self)@.wf(),
            removed == id_index(old(self)@.marks, id@) is Some,
            final(self)@ == (MarkManagerModel {
                marks: match id_index(old(self)@.marks, id@) {
                    Some(i) => old(self)@.marks.remove(i),
                    None => old(self)@.marks,
                },
                ..old(self)@
            }),
    {
        match find_index(&self.marks, id) {
            Some(i) => {
                let ghost before = self.marks@;
                self.marks.remove(i);
                proof {
                    assert forall|a: int, b: int| 0 <= a < b < self@.marks.len() implies (#[trigger] self@.marks[a]).id@
                        != (#[trigger] self@.marks[b]).id@ by {
                        let a0 = if a < i { a } else { a + 1 };
                        let b0 = if b < i { b } else { b + 1 };
                        assert(self@.marks[a] == before[a0]);
                        assert(self@.marks[b] == before[b0]);
                    }
                    assert forall|a: int| 0 <= a < self@.marks.len() implies issued_id(
                        (#[trigger] self@.marks[a]).id@,
                        self@.next_mark_id,
                    ) by {
                        let a0 = if a < i { a } else { a + 1 };
                        assert(self@.marks[a] == before[a0]);
                    }
                }
                true
            },
            None => false,
        }
    }

    /// The marks of tab `tab_id` on rows `lo..=hi`, in creation order.
    fn select(&self, tab_id: usize, lo: usize, hi: usize) -> (r: Vec<&Mark>)
        ensures
            r@.len() == marks_in(self@.marks, tab_id, lo, hi).len(),
            forall|i: int| 0 <= i < r@.len() ==> *(#[trigger] r@[i]) == marks_in(self@.marks, tab_id, lo, hi)[i],
    {
        let ghost ms = self.marks@;
        let ghost p = |m: Mark| m.tab_id == tab_id && lo <= m.row <= hi;
        let mut r: Vec<&Mark> = Vec::new();
        let mut i: usize = 0;
        while i < self.marks.len()
            invariant
                i <= ms.len(),
                ms == self.marks@,
                p == (|m: Mark| m.tab_id == tab_id && lo <= m.row <= hi),
                r@.len() == ms.take(i as int).filter(p).len(),
                forall|k: int| 0 <= k < r@.len() ==> *(#[trigger] r@[k]) == ms.take(i as int).filter(p)[k],
            decreases ms.len() - i,
        {
            let m = &self.marks[i];
            proof {
                assert(ms.take(i + 1).drop_last() =~= ms.take(i as int));
                reveal_with_fuel(Seq::<Mark>::filter, 1);
            }
            if m.tab_id == tab_id && lo <= m.row && m.row <= hi {
                r.push(m);
            }
            i = i + 1;
        }
        assert(ms.take(i as int) =~= ms);
        r
    }

    /// The marks of tab `tab_id`, in creation order.
    pub fn get_marks_for_tab(&self, tab_id: usize) -> (r: Vec<&Mark>)
        ensures
            r@.len() == self@.marks.filter(|m: Mark| m.tab_id == tab_id).len(),
            forall|i: int| 0 <= i < r@.len() ==> *(#[trigger] r@[i]) == self@.marks.filter(|m: Mark| m.tab_id == tab_id)[i],
    {
        let r = self.select(tab_id, 0, usize::MAX);
        assert((|m: Mark| m.tab_id == tab_id && 0 <= m.row <= usize::MAX) =~= (|m: Mark| m.tab_id == tab_id));
        r
    }

    /// The marks of tab `tab_id` on rows `row_start..=row_end`, in creation order.
    pub fn get_marks_in_range(&self, tab_id: usize, row_start: usize, row_end: usize) -> (r: Vec<&Mark>)
        ensures
            r@.len() == marks_in(self@.marks, tab_id, row_start, row_end).len(),
            forall|i: int| 0 <= i < r@.len() ==> *(#[trigger] r@[i]) == marks_in(self@.marks, tab_id, row_start, row_end)[i],
    {
        self.select(tab_id, row_start, row_end)
    }

    /// A mark of tab `tab_id` at (`row`, `col`): the first created, if any.
    pub fn find_mark_at(&self, tab_id: usize, row: usize, col: usize) -> (r: Option<&Mark>)
        ensures
            match r {
                Some(m) => marks_at(self@.marks, tab_id, row, col).len() > 0 && *m == marks_at(self@.marks, tab_id, row, col)[0],
                None => marks_at(self@.marks, tab_id, row, col).len() == 0,
            },
    {
        let ghost ms = self.marks@;
        let ghost p = |m: Mark| m.tab_id == tab_id && m.row == row && m.col == col;
        let mut i: usize = 0;
        while i < self.marks.len()
            invariant
                i <= ms.len(),
                ms == self.marks@,
                p == (|m: Mark| m.tab_id == tab_id && m.row == row && m.col == col),
                ms.take(i as int).filter(p).len() == 0,
            decreases ms.len() - i,
        {
            proof {
                assert(ms.take(i + 1).drop_last() =~= ms.take(i as int));
                reveal_with_fuel(Seq::<Mark>::filter, 1);
            }
            let m = &self.marks[i];
            if m.tab_id == tab_id && m.row == row && m.col == col {
                proof {
                    lemma_filter_split(ms, p, i as int);
                }
                return Some(m);
            }
            i = i + 1;
        }
        assert(ms.take(i as int) =~= ms);
        None
    }

    /// Every mark, in creation order.
    pub fn get_all_marks(&self) -> (r: Vec<&Mark>)
        ensures
            r@.len() == self@.marks.len(),
            forall|i: int| 0 <= i < r@.len() ==> *(#[trigger] r@[i]) == self@.marks[i],
    {
        let mut r: Vec<&Mark> = Vec::new();
        let mut i: usize = 0;
        while i < self.marks.len()
            invariant
                i <= self.marks@.len(),
                r@.len() == i,
                forall|k: int| 0 <= k < i ==> *(#[trigger] r@[k]) == self.marks@[k],
            decreases self.marks@.len() - i,
        {
            r.push(&self.marks[i]);
            i = i + 1;
        }
        r
    }

    /// Removes every mark of tab `tab_id`.
    pub fn clear_marks_for_tab(&mut self, tab_id: usize)
        requires
            old(self)@.wf(),
        ensures
            final(self)@.wf(),
            final(self)@ == (MarkManagerModel {
                marks: old(self)@.marks.filter(|m: Mark| m.tab_id != tab_id),
                ..old(self)@
            }),
    {
        let ghost ms = self.marks@;
        let ghost p = |m: Mark| m.tab_id != tab_id;
        let mut old_marks: Vec<Mark> = Vec::new();
        std::mem::swap(&mut old_marks, &mut self.marks);
        let mut kept: Vec<Mark> = Vec::new();
        let mut rest = old_marks;
        let mut i: usize = 0;
        let n = rest.len();
        while i < n
            invariant
                i <= n == ms.len(),
                rest@ == ms,
                p == (|m: Mark| m.tab_id != tab_id),
                kept@ == ms.take(i as int).filter(p),
                self.marks@.len() == 0,
                self.next_mark_id == old(self).next_mark_id,
                self.enabled == old(self).enabled,
                self.auto_mark_commands == old(self).auto_mark_commands,
            decreases n - i,
        {
            proof {
                assert(ms.take(i + 1).drop_last() =~= ms.take(i as int));
                reveal_with_fuel(Seq::<Mark>::filter, 1);
            }
            if rest[i].tab_id != tab_id {
                kept.push(rest[i].clone_mark());
            }
            i = i + 1;
            assert(kept@ =~= ms.take(i as int).filter(p));
        }
        assert(ms.take(i as int) =~= ms);
        self.marks = kept;
        proof {
            lemma_filter_keeps_ids(ms, p, old(self)@.next_mark_id);
        }
    }

    /// Removes every mark.
    pub fn clear_all_marks(&mut self)
        requires
            old(self)@.wf(),
        ensures
            final(self)@.wf(),
            final(self)@ == (MarkManagerModel { marks: Seq::empty(), ..old(self)@ }),
    {
        self.marks.clear();
    }

    pub fn toggle_enabled(&mut self)
        ensures
            final(self)@ == (MarkManagerModel { enabled: !old(self)@.enabled, ..old(self)@ }),
    {
        self.enabled = !self.enabled;
    }

    pub fn is_enabled(&self) -> (b: bool)
        ensures
            b == self@.enabled,
    {
        self.enabled
    }

    pub fn set_enabled(&mut self, enabled: bool)
        ensures
            final(self)@ == (MarkManagerModel { enabled, ..old(self)@ }),
    {
        self.enabled = enabled;
    }

    /// The first word of `command` contains one of the auto-mark command names.
    pub fn should_auto_mark(&self, command: &str) -> (b: bool)
        ensures
            b == auto_marked(self@.auto_mark_commands, command.spec_bytes()),
    {
        let bytes = command.as_bytes();
        let (from, to) = first_word_bounds(bytes);
        let word = crate::text::copy_range(bytes, from, to);
        let mut i: usize = 0;
        let ghost cmds = self@.auto_mark_commands;
        while i < self.auto_mark_commands.len()
            invariant
                i <= cmds.len(),
                cmds == self@.auto_mark_commands,
                word@ == first_word(command.spec_bytes()),
                forall|k: int| 0 <= k < i ==> !has_infix(word@, encode_utf8(#[trigger] cmds[k])),
            decreases cmds.len() - i,
        {
            let c = self.auto_mark_commands[i].as_str().as_bytes();
            if contains_bytes(word.as_slice(), c) {
                assert(has_infix(first_word(command.spec_bytes()), encode_utf8(cmds[i as int])));
                return true;
            }
            i = i + 1;
        }
        false
    }
}

impl Mark {
    /// A copy of the mark (the id, texts and time included).
    pub fn clone_mark(&self) -> (m: Mark)
        ensures
            m == *self,
    {
        Mark {
            id: self.id.clone(),
            mark_type: self.mark_type,
            name: self.name.clone(),
            color: self.color,
            row: self.row,
            col: self.col,
            tab_id: self.tab_id,
            line_content: self.line_content.clone(),
            created_at: self.created_at.clone(),
            description: match &self.description {
                Some(d) => Some(d.clone()),
                None => None,
            },
        }
    }
}

/// The elements before index `i` fail `p` and element `i` passes: it is the first
/// element of the filtered sequence.
proof fn lemma_filter_split(s: Seq<Mark>, p: spec_fn(Mark) -> bool, i: int)
    requires
        0 <= i < s.len(),
        s.take(i).filter(p).len() == 0,
        p(s[i]),
    ensures
        s.filter(p).len() > 0,
        s.filter(p)[0] == s[i],
    decreases s.len() - i,
{
    reveal_with_fuel(Seq::<Mark>::filter, 1);
    assert(s.take(i + 1).drop_last() =~= s.take(i));
    assert(s.take(i + 1).filter(p) =~= seq![s[i]]);
    lemma_filter_prefix(s, p, i + 1);
    assert(s.take(i + 1).filter(p)[0] == s[i]);
}

/// Filtering a prefix gives a prefix of the filtered sequence.
proof fn lemma_filter_prefix(s: Seq<Mark>, p: spec_fn(Mark) -> bool, k: int)
    requires
        0 <= k <= s.len(),
    ensures
        s.take(k).filter(p).len() <= s.filter(p).len(),
        forall|j: int| 0 <= j < s.take(k).filter(p).len() ==> s.filter(p)[j] == #[trigger] s.take(k).filter(p)[j],
    decreases s.len() - k,
{
    if k < s.len() {
        lemma_filter_prefix(s, p, k + 1);
        reveal_with_fuel(Seq::<Mark>::filter, 1);
        assert(s.take(k + 1).drop_last() =~= s.take(k));
        let a = s.take(k).filter(p);
        let b = s.take(k + 1).filter(p);
        if p(s[k]) {
            assert(b == a.push(s[k]));
        } else {
            assert(b == a);
        }
        assert forall|j: int| 0 <= j < a.len() implies s.filter(p)[j] == #[trigger] a[j] by {
            assert(b[j] == a[j]);
        }
    } else {
        assert(s.take(k) =~= s);
    }
}

/// Keeping some of the marks keeps the ids issued and distinct.
proof fn lemma_filter_keeps_ids(s: Seq<Mark>, p: spec_fn(Mark) -> bool, next: usize)
    requires
        forall|i: int| 0 <= i < s.len() ==> issued_id((#[trigger] s[i]).id@, next),
        forall|i: int, j: int| 0 <= i < j < s.len() ==> (#[trigger] s[i]).id@ != (#[trigger] s[j]).id@,
    ensures
        forall|i: int| 0 <= i < s.filter(p).len() ==> issued_id((#[trigger] s.filter(p)[i]).id@, next),
        forall|i: int, j: int| 0 <= i < j < s.filter(p).len() ==> (#[trigger] s.filter(p)[i]).id@ != (#[trigger] s.filter(p)[j]).id@,
    decreases s.len(),
{
    reveal_with_fuel(Seq::<Mark>::filter, 1);
    if s.len() > 0 {
        let t = s.drop_last();
        assert forall|i: int| 0 <= i < t.len() implies issued_id((#[trigger] t[i]).id@, next) by {
            assert(t[i] == s[i]);
        }
        assert forall|i: int, j: int| 0 <= i < j < t.len() implies (#[trigger] t[i]).id@ != (#[trigger] t[j]).id@ by {
            assert(t[i] == s[i]);
            assert(t[j] == s[j]);
        }
        lemma_filter_keeps_ids(t, p, next);
        if p(s.last()) {
            assert(s.filter(p) == t.filter(p).push(s.last()));
            assert forall|i: int| 0 <= i < t.filter(p).len() implies (#[trigger] t.filter(p)[i]).id@ != s.last().id@ by {
                t.lemma_filter_contains_rev(p, t.filter(p)[i]);
                assert(t.filter(p).contains(t.filter(p)[i]));
                let k = choose|k: int| 0 <= k < t.len() && t[k] == t.filter(p)[i];
                assert(s[k] == t[k]);
                assert(s[s.len() - 1] == s.last());
            }
        }
    }
}

fn auto_mark_type_exec(line: &[u8]) -> (t: MarkType)
    ensures
        t == auto_mark_type(line@),
{
    let e1: [u8; 5] = [101, 114, 114, 111, 114];
    let e2: [u8; 5] = [69, 82, 82, 79, 82];
    let f: [u8; 6] = [102, 97, 105, 108, 101, 100];
    let w1: [u8; 7] = [119, 97, 114, 110, 105, 110, 103];
    let w2: [u8; 7] = [87, 65, 82, 78, 73, 78, 71];
    assert(e1@ =~= error_lower());
    assert(e2@ =~= error_upper());
    assert(f@ =~= failed_word());
    assert(w1@ =~= warning_lower());
    assert(w2@ =~= warning_upper());
    if starts_with_bytes(line, &e1) || starts_with_bytes(line, &e2) || contains_bytes(line, &f) {
        MarkType::Global
    } else if starts_with_bytes(line, &w1) || starts_with_bytes(line, &w2) {
        MarkType::Search
    } else {
        MarkType::Command
    }
}

impl MarkManager {
    /// Marks an output line automatically when marking is on and the line's first
    /// word names one of the configured commands (see [`auto_mark_type`]); the mark is
    /// named `auto_<row>_<col>`.
    pub fn auto_mark_output_line(&mut self, line: &str, row: usize, col: usize, tab_id: usize) -> (r: Option<&Mark>)
        requires
            old(self)@.wf(),
            old(self)@.next_mark_id < usize::MAX,
        ensures
            final(self)@.wf(),
            !(old(self)@.enabled && auto_marked(old(self)@.auto_mark_commands, line.spec_bytes())) ==> {
                &&& r is None
                &&& final(self)@ == old(self)@
            },
            (old(self)@.enabled && auto_marked(old(self)@.auto_mark_commands, line.spec_bytes())) ==> {
                &&& r matches Some(m)
                &&& *m == final(self)@.marks.last()
                &&& final(self)@.marks.drop_last() == old(self)@.marks
                &&& final(self)@.marks.len() == old(self)@.marks.len() + 1
                &&& final(self)@.next_mark_id == old(self)@.next_mark_id + 1
                &&& final(self)@.enabled == old(self)@.enabled
                &&& final(self)@.auto_mark_commands == old(self)@.auto_mark_commands
                &&& m.id@ == mark_id_chars(old(self)@.next_mark_id as nat)
                &&& m.mark_type == auto_mark_type(line.spec_bytes())
                &&& m.name@ == auto_name_chars(row as nat, col as nat)
                &&& m.color == mark_color(auto_mark_type(line.spec_bytes()))
                &&& m.row == row && m.col == col && m.tab_id == tab_id
                &&& m.line_content@ == line@
                &&& m.description is None
            },
    {
        if !self.enabled || !self.should_auto_mark(line) {
            return None;
        }
        let mark_type = auto_mark_type_exec(line.as_bytes());
        let mut name = String::new();
        name.push('a');
        name.push('u');
        name.push('t');
        name.push('o');
        name.push('_');
        push_digits(&mut name, row as u64);
        name.push('_');
        push_digits(&mut name, col as u64);
        assert(name@ =~= auto_name_chars(row as nat, col as nat));
        let content = line.to_owned();
        Some(self.create_mark(mark_type, name, row, col, tab_id, content))
    }

    /// Position of the nearest mark of tab `tab_id` below row `current_row`.
    pub fn jump_to_next_mark(&self, tab_id: usize, current_row: usize) -> (r: Option<(usize, usize)>)
        ensures
            nearest_ok(self@.marks, |m: Mark| is_after(m, tab_id, current_row), true, r),
    {
        let ghost ms = self.marks@;
        let mut best: Option<(usize, usize)> = None;
        let mut i: usize = 0;
        while i < self.marks.len()
            invariant
                i <= ms.len(),
                ms == self.marks@,
                match best {
                    Some((r, c)) => {
                        &&& exists|k: int| 0 <= k < i && is_after(#[trigger] ms[k], tab_id, current_row) && ms[k].row == r && ms[k].col == c
                        &&& forall|k: int| 0 <= k < i && is_after(#[trigger] ms[k], tab_id, current_row) ==> r <= ms[k].row
                    },
                    None => forall|k: int| 0 <= k < i ==> !is_after(#[trigger] ms[k], tab_id, current_row),
                },
            decreases ms.len() - i,
        {
            let m = &self.marks[i];
            if m.tab_id == tab_id && m.row > current_row {
                match best {
                    Some((r, _)) => {
                        if m.row < r {
                            best = Some((m.row, m.col));
                        }
                    },
                    None => {
                        best = Some((m.row, m.col));
                    },
                }
            }
            i = i + 1;
        }
        best
    }

    /// Position of the nearest mark of tab `tab_id` above row `current_row`.
    pub fn jump_to_prev_mark(&self, tab_id: usize, current_row: usize) -> (r: Option<(usize, usize)>)
        ensures
            nearest_ok(self@.marks, |m: Mark| is_before(m, tab_id, current_row), false, r),
    {
        let ghost ms = self.marks@;
        let mut best: Option<(usize, usize)> = None;
        let mut i: usize = 0;
        while i < self.marks.len()
            invariant
                i <= ms.len(),
                ms == self.marks@,
                match best {
                    Some((r, c)) => {
                        &&& exists|k: int| 0 <= k < i && is_before(#[trigger] ms[k], tab_id, current_row) && ms[k].row == r && ms[k].col == c
                        &&& forall|k: int| 0 <= k < i && is_before(#[trigger] ms[k], tab_id, current_row) ==> ms[k].row <= r
                    },
                    None => forall|k: int| 0 <= k < i ==> !is_before(#[trigger] ms[k], tab_id, current_row),
                },
            decreases ms.len() - i,
        {
            let m = &self.marks[i];
            if m.tab_id == tab_id && m.row < current_row {
                match best {
                    Some((r, _)) => {
                        if m.row >= r {
                            best = Some((m.row, m.col));
                        }
                    },
                    None => {
                        best = Some((m.row, m.col));
                    },
                }
            }
            i = i + 1;
        }
        best
    }
}

impl Default for MarkManager {
    fn default() -> (m: Self)
        ensures
            m@.wf(),
            m@.marks.len() == 0,
            m@.next_mark_id == 1,
            m@.enabled,
            m@.auto_mark_commands == default_auto_commands(),
    {
        MarkManager::new()
    }
}

/// Law: the ids of a well-formed manager are unique, so a mark just created is the
/// one found under its id.
pub proof fn law_created_mark_found(m: MarkManagerModel, created: MarkManagerModel)
    requires
        m.wf(),
        created.wf(),
        created.marks.drop_last() == m.marks,
        created.marks.len() == m.marks.len() + 1,
    ensures
        id_index(created.marks, created.marks.last().id@) == Some(created.marks.len() - 1),
{
    let last = created.marks.len() - 1;
    assert(created.marks[last].id@ == created.marks.last().id@);
    let c = choose|i: int| 0 <= i < created.marks.len() && (#[trigger] created.marks[i]).id@ == created.marks.last().id@;
    if c != last {
        assert(created.marks[c].id@ != created.marks[last].id@);
    }
}

/// Law: ids are never reused. No mark of a well-formed manager carries the id
/// `mark_<j>` for any `j` from the next id on, so the mark that the next creation
/// returns (and every later one, the next id only growing) has an id that no mark had
/// before, also after removals.
pub proof fn law_mark_ids_fresh(m: MarkManagerModel, j: nat)
    requires
        m.wf(),
        j >= m.next_mark_id,
    ensures
        id_index(m.marks, mark_id_chars(j)) is None,
        forall|i: int| 0 <= i < m.marks.len() ==> (#[trigger] m.marks[i]).id@ != mark_id_chars(j),
{
    assert forall|i: int| 0 <= i < m.marks.len() implies (#[trigger] m.marks[i]).id@ != mark_id_chars(j) by {
        let k = choose|k: nat| 1 <= k < m.next_mark_id && m.marks[i].id@ == mark_id_chars(k);
        if m.marks[i].id@ == mark_id_chars(j) {
            lemma_mark_id_injective(k, j);
        }
    }
}
} // verus!
