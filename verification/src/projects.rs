//! The project content service: extracting titles and annotations from
//! rendered HTML, planning and applying mutating actions, and validating
//! uploads.

use vstd::pervasive::VecAdditionalExecFns;
use vstd::prelude::*;
use vstd::string::StrSliceExecFns;
use vstd::string::StringExecFns;

use crate::errors::ErrorKind;
use crate::repository::{IdentifierAction, IdentifierRequest};
use crate::text::{ends_with, ends_with_suffix, find_sub, find_substring, str_eq};

verus! {

/// A project record as persisted: the rendered HTML.
#[derive(Clone, Debug)]
pub struct Project {
    pub html: String,
}

/// The response for one project: the row id, the extracted title and
/// annotation, and the full HTML.
pub struct ProjectResponse {
    pub id: i32,
    pub title: String,
    pub annotation: String,
    pub html: String,
}

/// How many characters of a paragraph the annotation keeps before cutting at
/// the next space.
pub const ANNOTATION_LENGTH: usize = 25;

/// The opening form of a tag.
pub open spec fn tag_open(tag: Seq<char>) -> Seq<char> {
    seq!['<'] + tag + seq!['>']
}

/// The closing form of a tag.
pub open spec fn tag_close(tag: Seq<char>) -> Seq<char> {
    seq!['<', '/'] + tag + seq!['>']
}

/// The annotation cut of a paragraph: a paragraph at least as long as the
/// bound is cut at the first space at or after the bound, when there is one,
/// and an ellipsis is appended either way.
pub open spec fn annotate(content: Seq<char>) -> Seq<char> {
    let cut = if content.len() >= ANNOTATION_LENGTH {
        match find_sub(content.skip(ANNOTATION_LENGTH as int), seq![' ']) {
            Some(v) => content.take(ANNOTATION_LENGTH + v),
            None => content,
        }
    } else {
        content
    };
    cut + seq!['.', '.', '.']
}

/// What extracting a tag's content owes: the text between the first opening
/// and the first closing tag, for the paragraph tag additionally cut to an
/// annotation. A missing tag, or a closing tag that starts before the
/// content does, is a malformed document.
pub open spec fn get_content_spec(tag: Seq<char>, html: Seq<char>) -> Result<Seq<char>, ErrorKind> {
    match find_sub(html, tag_open(tag)) {
        None => Err(ErrorKind::Malformed),
        Some(s0) => match find_sub(html, tag_close(tag)) {
            None => Err(ErrorKind::Malformed),
            Some(e0) => {
                let start = s0 + tag.len() + 2;
                if start > e0 {
                    Err(ErrorKind::Malformed)
                } else {
                    let content = html.subrange(start, e0);
                    if tag == seq!['p'] {
                        Ok(annotate(content))
                    } else {
                        Ok(content)
                    }
                }
            },
        },
    }
}

/// Accept the position of an expected tag, or report the malformed document.
pub fn handle_expected_tag(index: Option<usize>) -> (r: Result<usize, ErrorKind>)
    ensures
        r == (match index {
            Some(i) => Ok::<usize, ErrorKind>(i),
            None => Err::<usize, ErrorKind>(ErrorKind::Malformed),
        }),
{
    match index {
        Some(i) => Ok(i),
        None => Err(ErrorKind::Malformed),
    }
}

/// Extract the content of the first `tag` element of the document; the
/// paragraph tag is cut to an annotation.
pub fn get_content(tag: &str, html: &String) -> (r: Result<String, ErrorKind>)
    ensures
        (match get_content_spec(tag@, html@) {
            Ok(t) => r matches Ok(x) && x@ == t,
            Err(e) => r == Err::<String, ErrorKind>(e),
        }),
{
    proof {
        reveal_strlit("<");
        reveal_strlit("</");
        reveal_strlit(">");
    }
    let mut open = String::from_str("<");
    open.append(tag);
    open.append(">");
    let mut close = String::from_str("</");
    close.append(tag);
    close.append(">");
    proof {
        assert(open@ =~= tag_open(tag@));
        assert(close@ =~= tag_close(tag@));
    }
    let s0 = match handle_expected_tag(find_substring(html.as_str(), open.as_str())) {
        Ok(i) => i,
        Err(e) => {
            return Err(e);
        },
    };
    let e0 = match handle_expected_tag(find_substring(html.as_str(), close.as_str())) {
        Ok(i) => i,
        Err(e) => {
            return Err(e);
        },
    };
    let html_len = html.as_str().unicode_len();
    proof {
        assert(s0 + open@.len() <= html@.len());
    }
    let offset = tag.unicode_len() + 2;
    let start = s0 + offset;
    if start > e0 {
        return Err(ErrorKind::Malformed);
    }
    let content = html.as_str().substring_char(start, e0);
    proof {
        reveal_strlit("p");
        assert("p"@ =~= seq!['p']);
    }
    if str_eq(tag, "p") {
        let clen = content.unicode_len();
        let mut cut: String;
        if clen >= ANNOTATION_LENGTH {
            let rest = content.substring_char(ANNOTATION_LENGTH, clen);
            proof {
                reveal_strlit(" ");
                assert(" "@ =~= seq![' ']);
                assert(rest@ =~= content@.skip(ANNOTATION_LENGTH as int));
            }
            match find_substring(rest, " ") {
                Some(v) => {
                    cut = String::from_str(content.substring_char(0, ANNOTATION_LENGTH + v));
                    proof {
                        assert(cut@ =~= content@.take(ANNOTATION_LENGTH + v));
                    }
                },
                None => {
                    cut = String::from_str(content);
                },
            }
        } else {
            cut = String::from_str(content);
        }
        proof {
            reveal_strlit("...");
        }
        cut.append("...");
        proof {
            assert("..."@ =~= seq!['.', '.', '.']);
            assert(cut@ =~= annotate(html@.subrange(start as int, e0 as int)));
        }
        Ok(cut)
    } else {
        Ok(String::from_str(content))
    }
}

/// What a mutating request resolves to.
#[derive(PartialEq, Eq, Structural, Clone, Copy, Debug)]
pub enum ProjectAction {
    Update(i32),
    Insert,
    Delete(i32),
}

/// The action an identifier request resolves to: update with an id updates
/// that row, update without an id inserts a new row, and delete demands an
/// id.
pub open spec fn plan_action_spec(idr: &IdentifierRequest) -> Result<ProjectAction, ErrorKind> {
    match idr.action {
        IdentifierAction::UPDATE => match idr.id {
            Some(i) => Ok(ProjectAction::Update(i)),
            None => Ok(ProjectAction::Insert),
        },
        IdentifierAction::DELETE => match idr.id {
            Some(i) => Ok(ProjectAction::Delete(i)),
            None => Err(ErrorKind::Malformed),
        },
    }
}

/// Resolve an identifier request to the action to perform.
pub fn plan_action(idr: &IdentifierRequest) -> (r: Result<ProjectAction, ErrorKind>)
    ensures
        r == plan_action_spec(idr),
{
    match idr.action {
        IdentifierAction::UPDATE => match idr.id {
            Some(i) => Ok(ProjectAction::Update(i)),
            None => Ok(ProjectAction::Insert),
        },
        IdentifierAction::DELETE => match idr.id {
            Some(i) => Ok(ProjectAction::Delete(i)),
            None => Err(ErrorKind::Malformed),
        },
    }
}

/// Validate an uploaded file: it must be present, be a regular file, and be
/// named like a Markdown file.
pub fn validate_file(has_file: bool, is_regular: bool, name: &str) -> (r: Result<(), ErrorKind>)
    ensures
        !has_file ==> r == Err::<(), ErrorKind>(ErrorKind::Malformed),
        (has_file && !is_regular) ==> r == Err::<(), ErrorKind>(ErrorKind::Malformed),
        (has_file && is_regular && !ends_with(name@, seq!['.', 'm', 'd'])) ==> r == Err::<
            (),
            ErrorKind,
        >(ErrorKind::Malformed),
        (has_file && is_regular && ends_with(name@, seq!['.', 'm', 'd'])) ==> r is Ok,
{
    if !has_file {
        return Err(ErrorKind::Malformed);
    }
    if !is_regular {
        return Err(ErrorKind::Malformed);
    }
    proof {
        reveal_strlit(".md");
        assert(".md"@ =~= seq!['.', 'm', 'd']);
    }
    if !ends_with_suffix(name, ".md") {
        return Err(ErrorKind::Malformed);
    }
    Ok(())
}

/// Build the response for one project row: the title from the first `h1`
/// element, the annotation from the first paragraph, and the full HTML.
pub fn project_response(id: i32, html: String) -> (r: Result<ProjectResponse, ErrorKind>)
    ensures
        (match get_content_spec("h1"@, html@) {
            Err(e) => r == Err::<ProjectResponse, ErrorKind>(e),
            Ok(title) => match get_content_spec("p"@, html@) {
                Err(e) => r == Err::<ProjectResponse, ErrorKind>(e),
                Ok(ann) => r matches Ok(p) && p.id == id && p.title@ == title && p.annotation@
                    == ann && p.html@ == html@,
            },
        }),
{
    let title = match get_content("h1", &html) {
        Ok(t) => t,
        Err(e) => {
            return Err(e);
        },
    };
    let annotation = match get_content("p", &html) {
        Ok(a) => a,
        Err(e) => {
            return Err(e);
        },
    };
    Ok(ProjectResponse { id, title, annotation, html })
}

/// The mathematical value of one stored project row.
pub struct ProjectRowView {
    pub id: int,
    pub html: Seq<char>,
}

/// Whether some project row carries the given id.
pub open spec fn contains_project(rows: Seq<ProjectRowView>, id: int) -> bool {
    exists|i: int| 0 <= i < rows.len() && #[trigger] rows[i].id == id
}

/// The position of the project row carrying the given id.
pub open spec fn index_of_project(rows: Seq<ProjectRowView>, id: int) -> int {
    choose|i: int| 0 <= i < rows.len() && #[trigger] rows[i].id == id
}

/// The rows after deleting the given id: unchanged when the id is absent.
pub open spec fn remove_project(rows: Seq<ProjectRowView>, id: int) -> Seq<ProjectRowView> {
    if contains_project(rows, id) {
        rows.remove(index_of_project(rows, id))
    } else {
        rows
    }
}

/// The rows after replacing the HTML of the given id: unchanged when the id
/// is absent.
pub open spec fn update_project(rows: Seq<ProjectRowView>, id: int, html: Seq<char>) -> Seq<
    ProjectRowView,
> {
    if contains_project(rows, id) {
        rows.update(index_of_project(rows, id), ProjectRowView { id, html })
    } else {
        rows
    }
}

/// The store of project rows, keyed by an id the store assigns.
pub struct ProjectStore {
    rows: Vec<(i32, Project)>,
    next_id: i32,
}

impl View for ProjectStore {
    type V = Seq<ProjectRowView>;

    closed spec fn view(&self) -> Seq<ProjectRowView> {
        Seq::new(
            self.rows@.len(),
            |i: int| ProjectRowView { id: self.rows@[i].0 as int, html: self.rows@[i].1.html@ },
        )
    }
}

impl ProjectStore {
    #[verifier::type_invariant]
    spec fn wf(self) -> bool {
        &&& 0 < self.next_id
        &&& forall|i: int|
            0 <= i < self.rows@.len() ==> 0 < #[trigger] self.rows@[i].0 < self.next_id
        &&& forall|i: int, j: int|
            #![trigger self.rows@[i].0, self.rows@[j].0]
            0 <= i < j < self.rows@.len() ==> self.rows@[i].0 != self.rows@[j].0
    }

    /// The id the next successful insert will be assigned.
    pub closed spec fn spec_next_id(&self) -> int {
        self.next_id as int
    }

    /// Whether the store can still assign an id to another row.
    pub open spec fn has_room(&self) -> bool {
        self.spec_next_id() < i32::MAX as int
    }

    /// An empty store; ids are assigned from 1 upward.
    pub fn new() -> (s: ProjectStore)
        ensures
            s@ == Seq::<ProjectRowView>::empty(),
            s.spec_next_id() == 1,
    {
        let s = ProjectStore { rows: Vec::new(), next_id: 1 };
        proof {
            assert(s@ =~= Seq::<ProjectRowView>::empty());
        }
        s
    }

    /// The number of stored rows.
    pub fn len(&self) -> (n: usize)
        ensures
            n == self@.len(),
    {
        self.rows.len()
    }

    /// Persist a record; the store assigns and returns the generated id.
    /// Fails with `StorageFailure` exactly when the id space is exhausted.
    pub fn insert(&mut self, project: Project) -> (r: Result<i32, ErrorKind>)
        ensures
            old(self).has_room() ==> r is Ok && r->Ok_0 == old(self).spec_next_id()
                && final(self)@ == old(self)@.push(
                (ProjectRowView { id: old(self).spec_next_id(), html: project.html@ }),
            ) && final(self).spec_next_id() == old(self).spec_next_id() + 1,
            !old(self).has_room() ==> r == Err::<i32, ErrorKind>(ErrorKind::StorageFailure)
                && *final(self) == *old(self),
    {
        proof {
            use_type_invariant(&*self);
        }
        if self.next_id < i32::MAX {
            let id = self.next_id;
            let mut rows: Vec<(i32, Project)> = Vec::new();
            core::mem::swap(&mut rows, &mut self.rows);
            rows.push((id, project));
            self.next_id = id + 1;
            proof {
                let prev = old(self).rows@;
                assert forall|j: int| 0 <= j < rows@.len() implies 0 < (#[trigger] rows@[j]).0
                    < id + 1 by {
                    if j < prev.len() {
                        assert(0 < prev[j].0 < id);
                        assert(rows@[j] == prev[j]);
                    }
                }
                assert forall|j: int, k: int|
                    #![trigger rows@[j].0, rows@[k].0]
                    0 <= j < k < rows@.len() implies rows@[j].0 != rows@[k].0 by {
                    if k < prev.len() {
                        assert(rows@[j] == prev[j] && rows@[k] == prev[k]);
                    } else {
                        assert(j < prev.len() && rows@[j] == prev[j]);
                    }
                }
            }
            self.rows = rows;
            proof {
                assert(self@ =~= old(self)@.push(
                    ProjectRowView { id: id as int, html: project.html@ },
                ));
            }
            Ok(id)
        } else {
            Err(ErrorKind::StorageFailure)
        }
    }

    /// Look up the stored record for an id, or `None` when no row carries
    /// it.
    pub fn find_by_id(&self, id: i32) -> (r: Option<Project>)
        ensures
            contains_project(self@, id as int) ==> (r matches Some(p) && self@[index_of_project(
                self@,
                id as int,
            )].html == p.html@),
            !contains_project(self@, id as int) ==> r is None,
    {
        proof {
            use_type_invariant(self);
        }
        let n = self.rows.len();
        let mut i: usize = 0;
        while i < n
            invariant
                n == self.rows@.len(),
                0 <= i <= n,
                forall|j: int| 0 <= j < i ==> #[trigger] self.rows@[j].0 != id,
                forall|j: int, k: int|
                    #![trigger self.rows@[j].0, self.rows@[k].0]
                    0 <= j < k < n ==> self.rows@[j].0 != self.rows@[k].0,
                forall|j: int| 0 <= j < self@.len() ==> (#[trigger] self@[j]).id
                    == self.rows@[j].0 as int && self@[j].html == self.rows@[j].1.html@,
                self@.len() == n,
            decreases n - i,
        {
            let row = &self.rows[i];
            if row.0 == id {
                let found = Project { html: row.1.html.clone() };
                proof {
                    assert(self@[i as int].id == id as int);
                    let k = index_of_project(self@, id as int);
                    assert(self@[k].id == id as int);
                    assert(k == i as int);
                }
                return Some(found);
            }
            i = i + 1;
        }
        proof {
            if contains_project(self@, id as int) {
                let k = index_of_project(self@, id as int);
                assert(self.rows@[k].0 == id);
            }
        }
        None
    }

    /// All rows, as id and HTML pairs, in storage order.
    pub fn select_all(&self) -> (r: Vec<(i32, String)>)
        ensures
            r@.len() == self@.len(),
            forall|i: int|
                #![trigger r@[i]]
                0 <= i < r@.len() ==> r@[i].0 == self@[i].id && r@[i].1@ == self@[i].html,
    {
        let n = self.rows.len();
        let mut out: Vec<(i32, String)> = Vec::new();
        let mut i: usize = 0;
        while i < n
            invariant
                n == self.rows@.len(),
                self@.len() == n,
                0 <= i <= n,
                out@.len() == i,
                forall|j: int|
                    #![trigger out@[j]]
                    0 <= j < i ==> out@[j].0 == self@[j].id && out@[j].1@ == self@[j].html,
                forall|j: int| 0 <= j < self@.len() ==> (#[trigger] self@[j]).id
                    == self.rows@[j].0 as int && self@[j].html == self.rows@[j].1.html@,
            decreases n - i,
        {
            let row = &self.rows[i];
            out.push((row.0, row.1.html.clone()));
            i = i + 1;
        }
        out
    }

    /// Replace the HTML of the row carrying the given id and report how many
    /// rows were affected; an absent id affects zero rows and is not an
    /// error.
    pub fn update_by_id(&mut self, id: i32, html: String) -> (n: usize)
        ensures
            final(self)@ == update_project(old(self)@, id as int, html@),
            contains_project(old(self)@, id as int) ==> n == 1,
            !contains_project(old(self)@, id as int) ==> n == 0,
            final(self).spec_next_id() == old(self).spec_next_id(),
    {
        proof {
            use_type_invariant(&*self);
        }
        let ghost pre = self@;
        let n = self.rows.len();
        let mut i: usize = 0;
        while i < n
            invariant
                n == self.rows@.len(),
                0 <= i <= n,
                pre == self@,
                pre == old(self)@,
                self.next_id == old(self).next_id,
                forall|j: int| 0 <= j < i ==> #[trigger] self.rows@[j].0 != id,
                forall|j: int, k: int|
                    #![trigger self.rows@[j].0, self.rows@[k].0]
                    0 <= j < k < n ==> self.rows@[j].0 != self.rows@[k].0,
                forall|j: int| 0 <= j < self@.len() ==> (#[trigger] self@[j]).id
                    == self.rows@[j].0 as int && self@[j].html == self.rows@[j].1.html@,
            decreases n - i,
        {
            if self.rows[i].0 == id {
                proof {
                    use_type_invariant(&*self);
                    assert(self@[i as int].id == id as int);
                    let k = index_of_project(self@, id as int);
                    assert(self@[k].id == id as int);
                    assert(k == i as int);
                }
                let mut rows: Vec<(i32, Project)> = Vec::new();
                core::mem::swap(&mut rows, &mut self.rows);
                let mut slot: (i32, Project) = (id, Project { html });
                rows.set_and_swap(i, &mut slot);
                self.rows = rows;
                proof {
                    assert(self@ =~= pre.update(
                        i as int,
                        ProjectRowView { id: id as int, html: html@ },
                    ));
                }
                return 1;
            }
            i = i + 1;
        }
        proof {
            if contains_project(self@, id as int) {
                let k = index_of_project(self@, id as int);
                assert(self.rows@[k].0 == id);
            }
        }
        0
    }

    /// Delete the row carrying the given id and report how many rows were
    /// affected; an absent id affects zero rows and is not an error.
    pub fn delete_by_id(&mut self, id: i32) -> (n: usize)
        ensures
            final(self)@ == remove_project(old(self)@, id as int),
            contains_project(old(self)@, id as int) ==> n == 1,
            !contains_project(old(self)@, id as int) ==> n == 0,
            final(self).spec_next_id() == old(self).spec_next_id(),
    {
        proof {
            use_type_invariant(&*self);
        }
        let ghost pre = self@;
        let n = self.rows.len();
        let mut i: usize = 0;
        while i < n
            invariant
                n == self.rows@.len(),
                0 <= i <= n,
                pre == self@,
                pre == old(self)@,
                self.next_id == old(self).next_id,
                forall|j: int| 0 <= j < i ==> #[trigger] self.rows@[j].0 != id,
                forall|j: int, k: int|
                    #![trigger self.rows@[j].0, self.rows@[k].0]
                    0 <= j < k < n ==> self.rows@[j].0 != self.rows@[k].0,
                forall|j: int| 0 <= j < self@.len() ==> (#[trigger] self@[j]).id
                    == self.rows@[j].0 as int && self@[j].html == self.rows@[j].1.html@,
            decreases n - i,
        {
            if self.rows[i].0 == id {
                proof {
                    use_type_invariant(&*self);
                    assert(self@[i as int].id == id as int);
                    let k = index_of_project(self@, id as int);
                    assert(self@[k].id == id as int);
                    assert(k == i as int);
                }
                let mut rows: Vec<(i32, Project)> = Vec::new();
                core::mem::swap(&mut rows, &mut self.rows);
                rows.remove(i);
                self.rows = rows;
                proof {
                    assert(self@ =~= pre.remove(i as int));
                }
                return 1;
            }
            i = i + 1;
        }
        proof {
            if contains_project(self@, id as int) {
                let k = index_of_project(self@, id as int);
                assert(self.rows@[k].0 == id);
            }
        }
        0
    }
}

} // verus!
