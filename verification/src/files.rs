//! The files of a project: a collaborative document under each path.
use vstd::prelude::*;

use crate::collab::{Document, DocumentInfo, DocumentView};
use crate::strs::{ends_with, has_suffix, matches_text, push_str};

verus! {

/// `path` is a key of the entries `s`.
pub open spec fn has_path(s: Seq<(String, Document)>, path: Seq<char>) -> bool {
    exists|i: int| 0 <= i < s.len() && (#[trigger] s[i]).0@ == path
}

/// No path appears twice.
pub open spec fn paths_distinct(s: Seq<(String, Document)>) -> bool {
    forall|i: int, j: int|
        0 <= i < s.len() && 0 <= j < s.len() && i != j ==> (#[trigger] s[i]).0@ != (
        #[trigger] s[j]).0@
}

/// The entries as a map from path to document.
pub open spec fn files_map(s: Seq<(String, Document)>) -> Map<Seq<char>, DocumentView> {
    Map::new(
        |p: Seq<char>| has_path(s, p),
        |p: Seq<char>| s[choose|i: int| 0 <= i < s.len() && (#[trigger] s[i]).0@ == p].1@,
    )
}

/// The files of a fork: every document's text, without its edits.
pub open spec fn forked_files(m: Map<Seq<char>, DocumentView>) -> Map<Seq<char>, DocumentView> {
    Map::new(
        |p: Seq<char>| m.contains_key(p),
        |p: Seq<char>| DocumentView { text: m[p].text, history: Seq::empty(), cursors: Seq::empty() },
    )
}

/// Files whose path ends with `rs` are opened in the language server.
pub open spec fn is_rust_path(path: Seq<char>) -> bool {
    has_suffix(path, "rs"@)
}

/// The URI under which the language server knows the file `path`.
pub open spec fn file_uri_spec(path: Seq<char>) -> Seq<char> {
    "file:///home/"@ + path
}

/// Whether the file `path` is opened in the language server.
pub fn is_rust_file(path: &str) -> (r: bool)
    ensures
        r == is_rust_path(path@),
{
    proof {
        reveal_strlit("rs");
    }
    ends_with(path, "rs")
}

/// The URI under which the language server knows the file `path`.
pub fn file_uri(path: &str) -> (r: String)
    ensures
        r@ == file_uri_spec(path@),
{
    proof {
        reveal_strlit("file:///home/");
    }
    let mut r = String::new();
    push_str(&mut r, "file:///home/");
    push_str(&mut r, path);
    r
}

proof fn lemma_file_at(s: Seq<(String, Document)>, i: int)
    requires
        paths_distinct(s),
        0 <= i < s.len(),
    ensures
        files_map(s).contains_key(s[i].0@),
        files_map(s)[s[i].0@] == s[i].1@,
{
    let p = s[i].0@;
    assert(has_path(s, p));
    let j = choose|j: int| 0 <= j < s.len() && (#[trigger] s[j]).0@ == p;
    assert(j == i);
}

proof fn lemma_file_update(s: Seq<(String, Document)>, i: int, e: (String, Document))
    requires
        paths_distinct(s),
        0 <= i < s.len(),
        e.0@ == s[i].0@,
    ensures
        paths_distinct(s.update(i, e)),
        files_map(s.update(i, e)) =~= files_map(s).insert(e.0@, e.1@),
{
    let t = s.update(i, e);
    let k = e.0@;
    assert forall|a: int, b: int|
        0 <= a < t.len() && 0 <= b < t.len() && a != b implies (#[trigger] t[a]).0@ != (
        #[trigger] t[b]).0@ by {
        assert(t[a].0@ == s[a].0@ && t[b].0@ == s[b].0@);
    }
    assert forall|p: Seq<char>| has_path(t, p) <==> has_path(s, p) by {
        if has_path(t, p) {
            let j = choose|j: int| 0 <= j < t.len() && (#[trigger] t[j]).0@ == p;
            assert(s[j].0@ == p);
        }
        if has_path(s, p) {
            let j = choose|j: int| 0 <= j < s.len() && (#[trigger] s[j]).0@ == p;
            assert(t[j].0@ == p);
        }
    }
    lemma_file_at(s, i);
    assert forall|p: Seq<char>| #[trigger] files_map(t).contains_key(p) implies files_map(t)[p]
        == files_map(s).insert(k, e.1@)[p] by {
        if p == k {
            lemma_file_at(t, i);
        } else {
            let j = choose|j: int| 0 <= j < s.len() && (#[trigger] s[j]).0@ == p;
            lemma_file_at(s, j);
            lemma_file_at(t, j);
        }
    }
}

proof fn lemma_file_push(s: Seq<(String, Document)>, e: (String, Document))
    requires
        paths_distinct(s),
        !has_path(s, e.0@),
    ensures
        paths_distinct(s.push(e)),
        files_map(s.push(e)) =~= files_map(s).insert(e.0@, e.1@),
{
    let t = s.push(e);
    let n = s.len() as int;
    assert forall|i: int, j: int|
        0 <= i < t.len() && 0 <= j < t.len() && i != j implies (#[trigger] t[i]).0@ != (
        #[trigger] t[j]).0@ by {
        if i < n && j < n {
            assert(t[i] == s[i] && t[j] == s[j]);
        } else if i < n {
            assert(t[i] == s[i]);
        } else {
            assert(t[j] == s[j]);
        }
    }
    assert forall|p: Seq<char>| has_path(t, p) <==> (has_path(s, p) || p == e.0@) by {
        if has_path(t, p) {
            let i = choose|i: int| 0 <= i < t.len() && (#[trigger] t[i]).0@ == p;
            if i < n {
                assert(t[i] == s[i]);
            }
        }
        if has_path(s, p) {
            let i = choose|i: int| 0 <= i < s.len() && (#[trigger] s[i]).0@ == p;
            assert(t[i] == s[i]);
        }
        if p == e.0@ {
            assert(t[n].0@ == p);
        }
    }
    assert forall|p: Seq<char>| #[trigger] files_map(t).contains_key(p) implies files_map(t)[p]
        == files_map(s).insert(e.0@, e.1@)[p] by {
        if p == e.0@ {
            lemma_file_at(t, n);
        } else {
            let i = choose|i: int| 0 <= i < s.len() && (#[trigger] s[i]).0@ == p;
            lemma_file_at(s, i);
            assert(t[i] == s[i]);
            lemma_file_at(t, i);
        }
    }
}

proof fn lemma_file_remove(s: Seq<(String, Document)>, i: int)
    requires
        paths_distinct(s),
        0 <= i < s.len(),
    ensures
        paths_distinct(s.remove(i)),
        files_map(s.remove(i)) =~= files_map(s).remove(s[i].0@),
{
    let t = s.remove(i);
    let k = s[i].0@;
    assert forall|a: int, b: int|
        0 <= a < t.len() && 0 <= b < t.len() && a != b implies (#[trigger] t[a]).0@ != (
        #[trigger] t[b]).0@ by {
        let sa = if a < i { a } else { a + 1 };
        let sb = if b < i { b } else { b + 1 };
        assert(t[a] == s[sa] && t[b] == s[sb]);
    }
    assert forall|p: Seq<char>| has_path(t, p) <==> (has_path(s, p) && p != k) by {
        if has_path(t, p) {
            let j = choose|j: int| 0 <= j < t.len() && (#[trigger] t[j]).0@ == p;
            let sj = if j < i { j } else { j + 1 };
            assert(t[j] == s[sj]);
            assert(s[sj].0@ == p);
        }
        if has_path(s, p) && p != k {
            let j = choose|j: int| 0 <= j < s.len() && (#[trigger] s[j]).0@ == p;
            assert(j != i);
            let tj = if j < i { j } else { j - 1 };
            assert(t[tj] == s[j]);
        }
    }
    assert forall|p: Seq<char>| #[trigger] files_map(t).contains_key(p) implies files_map(t)[p]
        == files_map(s).remove(k)[p] by {
        let j = choose|j: int| 0 <= j < t.len() && (#[trigger] t[j]).0@ == p;
        let sj = if j < i { j } else { j + 1 };
        assert(t[j] == s[sj]);
        lemma_file_at(t, j);
        lemma_file_at(s, sj);
    }
}

/// Whether `s` reads as a URI, as `lsp_types::Uri::from_str` (the
/// `fluent_uri` parser) decides.
pub uninterp spec fn uri_parses(s: Seq<char>) -> bool;

/// Whether `s` reads as a URI, with `lsp_types::Uri::from_str`; its answer,
/// a function of the text alone, is named [`uri_parses`]. The parsed URI
/// keeps the text as it was given.
#[verifier::external_body]
pub fn uri_is_valid(s: &str) -> (r: bool)
    ensures
        r == uri_parses(s@),
{
    <lsp_types::Uri as std::str::FromStr>::from_str(s).is_ok()
}

/// What the language server is told of a file: the file's path and URI
/// (a text that reads as a URI), its version (the document's revision)
/// and its text.
#[derive(Debug)]
pub struct FileOpen {
    pub path: String,
    pub uri: String,
    pub version: i32,
    pub text: String,
}

/// `o` tells the language server of its file, which holds `doc`.
pub open spec fn opens(o: FileOpen, doc: DocumentView) -> bool {
    &&& o.uri@ == file_uri_spec(o.path@)
    &&& uri_parses(o.uri@)
    &&& o.version == doc.history.len() as i32
    &&& o.text@ == doc.text
}

/// `r` holds what the language server is told of the files `files` when
/// it starts: one notice for each file whose URI reads as a URI, and no
/// file twice.
pub open spec fn notices_for(files: Map<Seq<char>, DocumentView>, r: Seq<FileOpen>) -> bool {
    &&& forall|i: int|
        0 <= i < r.len() ==> files.contains_key(#[trigger] r[i].path@) && opens(
            r[i],
            files[r[i].path@],
        )
    &&& forall|p: Seq<char>|
        #[trigger] files.contains_key(p) && uri_parses(file_uri_spec(p)) ==> exists|i: int|
            0 <= i < r.len() && r[i].path@ == p
    &&& forall|i: int, j: int| 0 <= i < j < r.len() ==> r[i].path@ != r[j].path@
}

/// The documents of a project, each under its path.
pub struct ProjectFiles {
    entries: Vec<(String, Document)>,
}

impl View for ProjectFiles {
    type V = Map<Seq<char>, DocumentView>;

    closed spec fn view(&self) -> Map<Seq<char>, DocumentView> {
        files_map(self.entries@)
    }
}

impl ProjectFiles {
    #[verifier::type_invariant]
    spec fn inv(self) -> bool {
        paths_distinct(self.entries@)
    }

    /// No files.
    pub fn new() -> (r: Self)
        ensures
            r@ == Map::<Seq<char>, DocumentView>::empty(),
    {
        let r = ProjectFiles { entries: Vec::new() };
        assert(r@ =~= Map::<Seq<char>, DocumentView>::empty());
        r
    }

    fn position(&self, path: &str) -> (r: Option<usize>)
        ensures
            r matches Some(i) ==> i < self.entries@.len() && self.entries@[i as int].0@ == path@,
            r is None ==> !has_path(self.entries@, path@),
    {
        let mut i: usize = 0;
        while i < self.entries.len()
            invariant
                i <= self.entries@.len(),
                forall|j: int| 0 <= j < i ==> (#[trigger] self.entries@[j]).0@ != path@,
            decreases self.entries@.len() - i,
        {
            if matches_text(self.entries[i].0.as_str(), path) {
                return Some(i);
            }
            i = i + 1;
        }
        None
    }

    /// Puts `document` under `path`, replacing a document there.
    pub fn add_file(&mut self, path: String, document: Document)
        ensures
            final(self)@ == old(self)@.insert(path@, document@),
    {
        proof {
            use_type_invariant(&*self);
        }
        let ghost s = self.entries@;
        let at = self.position(path.as_str());
        let mut entries: Vec<(String, Document)> = Vec::new();
        std::mem::swap(&mut entries, &mut self.entries);
        match at {
            Some(i) => {
                proof {
                    lemma_file_update(s, i as int, (path, document));
                }
                entries.set(i, (path, document));
            },
            None => {
                proof {
                    lemma_file_push(s, (path, document));
                }
                entries.push((path, document));
            },
        }
        self.entries = entries;
    }

    /// The document under `path`, if any.
    pub fn get_file(&self, path: &str) -> (r: Option<&Document>)
        ensures
            self@.contains_key(path@) ==> (r matches Some(d) && d@ == self@[path@]),
            !self@.contains_key(path@) ==> r is None,
    {
        proof {
            use_type_invariant(self);
        }
        match self.position(path) {
            Some(i) => {
                proof {
                    lemma_file_at(self.entries@, i as int);
                }
                Some(&self.entries[i].1)
            },
            None => None,
        }
    }

    /// The document under `path`, which is there.
    pub fn file_at(&self, path: &str) -> (r: &Document)
        requires
            self@.contains_key(path@),
        ensures
            r@ == self@[path@],
    {
        proof {
            use_type_invariant(self);
        }
        let mut i: usize = 0;
        while i < self.entries.len()
            invariant
                i <= self.entries@.len(),
                paths_distinct(self.entries@),
                has_path(self.entries@, path@),
                forall|j: int| 0 <= j < i ==> (#[trigger] self.entries@[j]).0@ != path@,
            decreases self.entries@.len() - i,
        {
            if matches_text(self.entries[i].0.as_str(), path) {
                proof {
                    lemma_file_at(self.entries@, i as int);
                }
                return &self.entries[i].1;
            }
            i = i + 1;
        }
        proof {
            let k = choose|k: int| 0 <= k < self.entries@.len() && (#[trigger] self.entries@[k]).0@
                == path@;
            assert(self.entries@[k].0@ != path@);
        }
        &self.entries[0].1
    }

    /// Takes the document under `path` out, if any.
    pub fn rm_file(&mut self, path: &str) -> (r: Option<Document>)
        ensures
            final(self)@ == old(self)@.remove(path@),
            old(self)@.contains_key(path@) ==> (r matches Some(d) && d@ == old(self)@[path@]),
            !old(self)@.contains_key(path@) ==> r is None,
    {
        proof {
            use_type_invariant(&*self);
        }
        let ghost s = self.entries@;
        match self.position(path) {
            Some(i) => {
                proof {
                    lemma_file_at(s, i as int);
                    lemma_file_remove(s, i as int);
                }
                let mut entries: Vec<(String, Document)> = Vec::new();
                std::mem::swap(&mut entries, &mut self.entries);
                let (_, doc) = entries.remove(i);
                self.entries = entries;
                Some(doc)
            },
            None => {
                assert(old(self)@.remove(path@) =~= old(self)@);
                None
            },
        }
    }

    /// The revision of the document under `path` as the language server's
    /// version number (truncated to an `i32`), or 0 where there is none.
    pub fn file_version(&self, path: &str) -> (r: i32)
        ensures
            self@.contains_key(path@) ==> r == self@[path@].history.len() as i32,
            !self@.contains_key(path@) ==> r == 0,
    {
        match self.get_file(path) {
            Some(doc) => doc.revision() as i32,
            None => 0,
        }
    }

    /// Every path with its document's text and revision.
    pub fn get_files(&self) -> (r: Vec<(String, DocumentInfo)>)
        ensures
            r@.len() == self@.dom().len(),
            forall|i: int|
                0 <= i < r@.len() ==> self@.contains_key(#[trigger] r@[i].0@) && r@[i].1.text@
                    == self@[r@[i].0@].text && r@[i].1.revision == self@[r@[i].0@].history.len(),
            forall|p: Seq<char>|
                #[trigger] self@.contains_key(p) ==> exists|i: int| 0 <= i < r@.len() && r@[i].0@ == p,
            forall|i: int, j: int| 0 <= i < j < r@.len() ==> r@[i].0@ != r@[j].0@,
    {
        proof {
            use_type_invariant(self);
        }
        let mut r: Vec<(String, DocumentInfo)> = Vec::new();
        let mut i: usize = 0;
        while i < self.entries.len()
            invariant
                i <= self.entries@.len(),
                paths_distinct(self.entries@),
                r@.len() == i,
                forall|k: int|
                    0 <= k < i ==> #[trigger] r@[k].0@ == self.entries@[k].0@ && r@[k].1.text@
                        == self.entries@[k].1@.text && r@[k].1.revision
                        == self.entries@[k].1@.history.len(),
            decreases self.entries@.len() - i,
        {
            let path = self.entries[i].0.clone();
            let info = self.entries[i].1.info();
            r.push((path, info));
            i = i + 1;
        }
        proof {
            let s = self.entries@;
            assert forall|k: int| 0 <= k < r@.len() implies self@.contains_key(#[trigger] r@[k].0@)
                && r@[k].1.text@ == self@[r@[k].0@].text && r@[k].1.revision
                == self@[r@[k].0@].history.len() by {
                lemma_file_at(s, k);
            }
            assert forall|p: Seq<char>| #[trigger] self@.contains_key(p) implies exists|k: int|
                0 <= k < r@.len() && r@[k].0@ == p by {
                let k = choose|k: int| 0 <= k < s.len() && (#[trigger] s[k]).0@ == p;
                assert(r@[k].0@ == p);
            }
            lemma_dom_len(s);
        }
        r
    }

    /// A copy of every document, with its text and without its edits.
    pub fn fork(&self) -> (r: Self)
        ensures
            r@ == forked_files(self@),
    {
        proof {
            use_type_invariant(self);
        }
        let mut entries: Vec<(String, Document)> = Vec::new();
        let mut i: usize = 0;
        while i < self.entries.len()
            invariant
                i <= self.entries@.len(),
                paths_distinct(self.entries@),
                entries@.len() == i,
                forall|k: int|
                    0 <= k < i ==> #[trigger] entries@[k].0@ == self.entries@[k].0@ && entries@[k].1@.text
                        == self.entries@[k].1@.text && entries@[k].1@.history.len() == 0
                        && entries@[k].1@.cursors.len() == 0,
            decreases self.entries@.len() - i,
        {
            let path = self.entries[i].0.clone();
            let doc = self.entries[i].1.fork();
            entries.push((path, doc));
            i = i + 1;
        }
        let ghost s = self.entries@;
        let ghost t = entries@;
        proof {
            assert forall|a: int, b: int|
                0 <= a < t.len() && 0 <= b < t.len() && a != b implies (#[trigger] t[a]).0@ != (
                #[trigger] t[b]).0@ by {
                assert(t[a].0@ == s[a].0@ && t[b].0@ == s[b].0@);
            }
            assert forall|p: Seq<char>| has_path(t, p) <==> has_path(s, p) by {
                if has_path(t, p) {
                    let k = choose|k: int| 0 <= k < t.len() && (#[trigger] t[k]).0@ == p;
                    assert(s[k].0@ == p);
                }
                if has_path(s, p) {
                    let k = choose|k: int| 0 <= k < s.len() && (#[trigger] s[k]).0@ == p;
                    assert(t[k].0@ == p);
                }
            }
            assert(files_map(t).dom() =~= files_map(s).dom());
            assert forall|p: Seq<char>| #[trigger] files_map(t).contains_key(p) implies files_map(
                t,
            )[p] == forked_files(files_map(s))[p] by {
                let k = choose|k: int| 0 <= k < t.len() && (#[trigger] t[k]).0@ == p;
                lemma_file_at(t, k);
                lemma_file_at(s, k);
                assert(files_map(t)[p].history =~= Seq::<(Seq<char>, Seq<crate::collab::EditView>)>::empty());
                assert(files_map(t)[p].cursors =~= Seq::<(Seq<char>, Seq<(u32, u32)>)>::empty());
            }
            assert(files_map(t) =~= forked_files(files_map(s)));
        }
        ProjectFiles { entries }
    }

    /// What the language server is told of every file when it starts: one
    /// notice for each file whose URI reads as a URI; the others are
    /// skipped.
    pub fn open_notifications(&self) -> (r: Vec<FileOpen>)
        ensures
            notices_for(self@, r@),
    {
        proof {
            use_type_invariant(self);
        }
        let ghost s = self.entries@;
        let ghost mut src: Seq<int> = Seq::empty();
        let mut r: Vec<FileOpen> = Vec::new();
        let mut i: usize = 0;
        while i < self.entries.len()
            invariant
                i <= self.entries@.len(),
                s == self.entries@,
                paths_distinct(s),
                src.len() == r@.len(),
                forall|k: int|
                    0 <= k < r@.len() ==> 0 <= #[trigger] src[k] < i && r@[k].path@ == s[src[k]].0@
                        && opens(r@[k], s[src[k]].1@),
                forall|k1: int, k2: int| 0 <= k1 < k2 < src.len() ==> src[k1] < src[k2],
                forall|j: int|
                    0 <= j < i && uri_parses(file_uri_spec(#[trigger] s[j].0@)) ==> exists|k: int|
                        0 <= k < src.len() && src[k] == j,
            decreases self.entries@.len() - i,
        {
            let path = self.entries[i].0.clone();
            let uri = file_uri(path.as_str());
            let ghost old_src = src;
            let valid = uri_is_valid(uri.as_str());
            if valid {
                let doc = &self.entries[i].1;
                let o = FileOpen { path, uri, version: doc.revision() as i32, text: doc.text() };
                r.push(o);
                proof {
                    src = src.push(i as int);
                    assert(src[src.len() - 1] == i);
                }
            }
            proof {
                assert forall|j: int|
                    0 <= j < i + 1 && uri_parses(file_uri_spec(#[trigger] s[j].0@)) implies exists|
                        k: int,
                    | 0 <= k < src.len() && src[k] == j by {
                    if j == i {
                        assert(valid);
                        assert(src[src.len() - 1] == j);
                    } else {
                        let k = choose|k: int| 0 <= k < old_src.len() && old_src[k] == j;
                        assert(src[k] == old_src[k]);
                    }
                }
            }
            i = i + 1;
        }
        proof {
            lemma_opens(s, r@, src);
        }
        r
    }
}

/// Notices made entry by entry cover the files whose URI reads as one.
proof fn lemma_opens(s: Seq<(String, Document)>, r: Seq<FileOpen>, src: Seq<int>)
    requires
        paths_distinct(s),
        src.len() == r.len(),
        forall|k: int|
            0 <= k < r.len() ==> 0 <= #[trigger] src[k] < s.len() && r[k].path@ == s[src[k]].0@
                && opens(r[k], s[src[k]].1@),
        forall|k1: int, k2: int| 0 <= k1 < k2 < src.len() ==> src[k1] < src[k2],
        forall|j: int|
            0 <= j < s.len() && uri_parses(file_uri_spec(#[trigger] s[j].0@)) ==> exists|k: int|
                0 <= k < src.len() && src[k] == j,
    ensures
        forall|i: int|
            0 <= i < r.len() ==> files_map(s).contains_key(#[trigger] r[i].path@) && opens(
                r[i],
                files_map(s)[r[i].path@],
            ),
        forall|p: Seq<char>|
            #[trigger] files_map(s).contains_key(p) && uri_parses(file_uri_spec(p)) ==> exists|
                i: int,
            | 0 <= i < r.len() && r[i].path@ == p,
        forall|i: int, j: int| 0 <= i < j < r.len() ==> r[i].path@ != r[j].path@,
{
    assert forall|k: int| 0 <= k < r.len() implies files_map(s).contains_key(
        #[trigger] r[k].path@,
    ) && opens(r[k], files_map(s)[r[k].path@]) by {
        lemma_file_at(s, src[k]);
    }
    assert forall|p: Seq<char>| #[trigger]
        files_map(s).contains_key(p) && uri_parses(file_uri_spec(p)) implies exists|k: int|
        0 <= k < r.len() && r[k].path@ == p by {
        let j = choose|j: int| 0 <= j < s.len() && (#[trigger] s[j]).0@ == p;
        assert(uri_parses(file_uri_spec(s[j].0@)));
        let k = choose|k: int| 0 <= k < src.len() && src[k] == j;
        assert(r[k].path@ == p);
    }
    assert forall|a: int, b: int| 0 <= a < b < r.len() implies r[a].path@ != r[b].path@ by {
        assert(src[a] < src[b]);
        assert(r[a].path@ == s[src[a]].0@ && r[b].path@ == s[src[b]].0@);
    }
}

/// The number of paths is the number of entries.
proof fn lemma_dom_len(s: Seq<(String, Document)>)
    requires
        paths_distinct(s),
    ensures
        files_map(s).dom().finite(),
        files_map(s).dom().len() == s.len(),
    decreases s.len(),
{
    if s.len() == 0 {
        assert(files_map(s).dom() =~= Set::<Seq<char>>::empty());
    } else {
        let u = s.drop_last();
        assert forall|a: int, b: int|
            0 <= a < u.len() && 0 <= b < u.len() && a != b implies (#[trigger] u[a]).0@ != (
            #[trigger] u[b]).0@ by {
            assert(u[a] == s[a] && u[b] == s[b]);
        }
        lemma_dom_len(u);
        assert(!has_path(u, s.last().0@)) by {
            if has_path(u, s.last().0@) {
                let k = choose|k: int| 0 <= k < u.len() && (#[trigger] u[k]).0@ == s.last().0@;
                assert(u[k] == s[k]);
            }
        }
        assert(u.push(s.last()) =~= s);
        lemma_file_push(u, s.last());
        assert(files_map(s).dom() =~= files_map(u).dom().insert(s.last().0@));
    }
}

/// Forking keeps every file's text and forgets its edits: forking a fork
/// gives the same files again, and every file of a fork is at revision 0.
pub proof fn law_forked_files_are_settled(m: Map<Seq<char>, DocumentView>, p: Seq<char>)
    ensures
        forked_files(forked_files(m)) == forked_files(m),
        forked_files(m).dom() == m.dom(),
        m.contains_key(p) ==> forked_files(m)[p].text == m[p].text && forked_files(m)[p].history.len()
            == 0,
{
    assert(forked_files(forked_files(m)) =~= forked_files(m));
    assert(forked_files(m).dom() =~= m.dom());
}

/// What `get_file` gives back after `add_file`: the document just added
/// under its path, and for every other path what it gave before; after
/// `rm_file` the path is gone and the others stay.
pub proof fn law_get_file_after_add_and_remove(
    before: Map<Seq<char>, DocumentView>,
    path: Seq<char>,
    doc: DocumentView,
    other: Seq<char>,
)
    ensures
        before.insert(path, doc).contains_key(path) && before.insert(path, doc)[path] == doc,
        !before.remove(path).contains_key(path),
        other != path ==> before.insert(path, doc).contains_key(other) == before.contains_key(other)
            && before.remove(path).contains_key(other) == before.contains_key(other),
        other != path && before.contains_key(other) ==> before.insert(path, doc)[other]
            == before[other] && before.remove(path)[other] == before[other],
{
}

} // verus!
