//! Who may enter a project and with what access: members, the queue of
//! access requests, public and password-protected projects, and forks.
use vstd::prelude::*;

use crate::access::AccessLevel;
use crate::auth::RgUserData;
use crate::collab::{Document, DocumentInfo, DocumentView};
use crate::files::{
    file_uri, file_uri_spec, forked_files, is_rust_file, is_rust_path, notices_for, uri_is_valid, uri_parses,
    FileOpen, ProjectFiles,
};
use crate::http_errors::HttpErrors;
use crate::outside::new_uuid;
use crate::strs::{ends_with, has_suffix, push_str};

verus! {

/// The suffix a forked project's name carries.
pub open spec fn fork_suffix() -> Seq<char> {
    " (fork)"@
}

/// The name of a fork: the name with ` (fork)` appended, unless it
/// already ends with it.
pub open spec fn fork_name(name: Seq<char>) -> Seq<char> {
    if has_suffix(name, fork_suffix()) {
        name
    } else {
        name + fork_suffix()
    }
}

/// `user` is a key of the member list `s`.
pub open spec fn has_key(s: Seq<(String, AccessLevel)>, user: Seq<char>) -> bool {
    exists|i: int| 0 <= i < s.len() && (#[trigger] s[i]).0@ == user
}

/// No user appears twice in the member list.
pub open spec fn keys_distinct(s: Seq<(String, AccessLevel)>) -> bool {
    forall|i: int, j: int|
        0 <= i < s.len() && 0 <= j < s.len() && i != j ==> (#[trigger] s[i]).0@ != (
        #[trigger] s[j]).0@
}

/// The member list as a map from user id to access level.
pub open spec fn members_map(s: Seq<(String, AccessLevel)>) -> Map<Seq<char>, AccessLevel> {
    Map::new(
        |u: Seq<char>| has_key(s, u),
        |u: Seq<char>| s[choose|i: int| 0 <= i < s.len() && (#[trigger] s[i]).0@ == u].1,
    )
}

/// No user appears twice in the request list.
pub open spec fn strings_distinct(s: Seq<String>) -> bool {
    forall|i: int, j: int|
        0 <= i < s.len() && 0 <= j < s.len() && i != j ==> (#[trigger] s[i])@ != (
        #[trigger] s[j])@
}

/// The request list as a set of user ids.
pub open spec fn string_set(s: Seq<String>) -> Set<Seq<char>> {
    Set::new(|u: Seq<char>| exists|i: int| 0 <= i < s.len() && (#[trigger] s[i])@ == u)
}

/// The access-relevant state of a project.
pub ghost struct ProjectView {
    pub name: Seq<char>,
    pub owner: Seq<char>,
    pub members: Map<Seq<char>, AccessLevel>,
    pub requests: Set<Seq<char>>,
    pub is_public: bool,
    pub password: Option<Seq<char>>,
    pub files: Map<Seq<char>, DocumentView>,
    pub lsp_started: bool,
}

/// What joining answers: the member's level; `Queue` in a private project;
/// in a public project, read access, unless a password is set and a
/// different one (or none) was given, which is refused.
pub open spec fn join_outcome(v: ProjectView, user: Seq<char>, password: Option<Seq<char>>) -> Option<
    AccessLevel,
> {
    if v.members.contains_key(user) {
        Some(v.members[user])
    } else if !v.is_public {
        Some(AccessLevel::Queue)
    } else {
        match v.password {
            Some(p) => if password == Some(p) {
                Some(AccessLevel::ReadOnly)
            } else {
                None
            },
            None => Some(AccessLevel::ReadOnly),
        }
    }
}

/// The project after a join: a newcomer who is let into a public project
/// becomes a reader; nothing else changes.
pub open spec fn join_state(v: ProjectView, user: Seq<char>, password: Option<Seq<char>>) -> ProjectView {
    if !v.members.contains_key(user) && v.is_public && join_outcome(v, user, password) is Some {
        ProjectView { members: v.members.insert(user, AccessLevel::ReadOnly), ..v }
    } else {
        v
    }
}

/// A project's identity, name, owner and access control.
pub struct Project {
    id: uuid::Uuid,
    name: String,
    owner: String,
    allowed_users: Vec<(String, AccessLevel)>,
    requests: Vec<String>,
    is_public: bool,
    password: Option<String>,
    documents: ProjectFiles,
    lsp_started: bool,
}

impl View for Project {
    type V = ProjectView;

    closed spec fn view(&self) -> ProjectView {
        ProjectView {
            name: self.name@,
            owner: self.owner@,
            members: members_map(self.allowed_users@),
            requests: string_set(self.requests@),
            is_public: self.is_public,
            password: match self.password {
                Some(p) => Some(p@),
                None => None,
            },
            files: self.documents@,
            lsp_started: self.lsp_started,
        }
    }
}

proof fn lemma_members_at(s: Seq<(String, AccessLevel)>, i: int)
    requires
        keys_distinct(s),
        0 <= i < s.len(),
    ensures
        members_map(s).contains_key(s[i].0@),
        members_map(s)[s[i].0@] == s[i].1,
{
    let u = s[i].0@;
    assert(has_key(s, u));
    let j = choose|j: int| 0 <= j < s.len() && (#[trigger] s[j]).0@ == u;
    assert(j == i);
}

proof fn lemma_members_push(s: Seq<(String, AccessLevel)>, k: String, v: AccessLevel)
    requires
        keys_distinct(s),
        !has_key(s, k@),
    ensures
        keys_distinct(s.push((k, v))),
        members_map(s.push((k, v))) =~= members_map(s).insert(k@, v),
{
    let t = s.push((k, v));
    assert forall|i: int, j: int|
        0 <= i < t.len() && 0 <= j < t.len() && i != j implies (#[trigger] t[i]).0@ != (
        #[trigger] t[j]).0@ by {
        if i < s.len() && j < s.len() {
            assert(t[i] == s[i] && t[j] == s[j]);
        } else if i < s.len() {
            assert(t[i] == s[i]);
        } else {
            assert(t[j] == s[j]);
        }
    }
    assert forall|u: Seq<char>| has_key(t, u) <==> (has_key(s, u) || u == k@) by {
        if has_key(t, u) {
            let i = choose|i: int| 0 <= i < t.len() && (#[trigger] t[i]).0@ == u;
            if i < s.len() {
                assert(t[i] == s[i]);
            }
        }
        if has_key(s, u) {
            let i = choose|i: int| 0 <= i < s.len() && (#[trigger] s[i]).0@ == u;
            assert(t[i] == s[i]);
        }
        if u == k@ {
            assert(t[s.len() as int].0@ == u);
        }
    }
    assert forall|u: Seq<char>| #[trigger] members_map(t).contains_key(u) implies members_map(t)[u]
        == members_map(s).insert(k@, v)[u] by {
        if u == k@ {
            lemma_members_at(t, s.len() as int);
        } else {
            let i = choose|i: int| 0 <= i < s.len() && (#[trigger] s[i]).0@ == u;
            lemma_members_at(s, i);
            assert(t[i] == s[i]);
            lemma_members_at(t, i);
        }
    }
}

proof fn lemma_members_update(s: Seq<(String, AccessLevel)>, i: int, v: AccessLevel)
    requires
        keys_distinct(s),
        0 <= i < s.len(),
    ensures
        keys_distinct(s.update(i, (s[i].0, v))),
        members_map(s.update(i, (s[i].0, v))) =~= members_map(s).insert(s[i].0@, v),
{
    let t = s.update(i, (s[i].0, v));
    let k = s[i].0@;
    assert forall|a: int, b: int|
        0 <= a < t.len() && 0 <= b < t.len() && a != b implies (#[trigger] t[a]).0@ != (
        #[trigger] t[b]).0@ by {
        assert(t[a].0@ == s[a].0@ && t[b].0@ == s[b].0@);
    }
    assert forall|u: Seq<char>| has_key(t, u) <==> has_key(s, u) by {
        if has_key(t, u) {
            let j = choose|j: int| 0 <= j < t.len() && (#[trigger] t[j]).0@ == u;
            assert(s[j].0@ == u);
        }
        if has_key(s, u) {
            let j = choose|j: int| 0 <= j < s.len() && (#[trigger] s[j]).0@ == u;
            assert(t[j].0@ == u);
        }
    }
    lemma_members_at(s, i);
    assert forall|u: Seq<char>| #[trigger] members_map(t).contains_key(u) implies members_map(t)[u]
        == members_map(s).insert(k, v)[u] by {
        if u == k {
            lemma_members_at(t, i);
        } else {
            let j = choose|j: int| 0 <= j < s.len() && (#[trigger] s[j]).0@ == u;
            lemma_members_at(s, j);
            lemma_members_at(t, j);
        }
    }
}

proof fn lemma_string_set_push(s: Seq<String>, k: String)
    requires
        strings_distinct(s),
        !string_set(s).contains(k@),
    ensures
        strings_distinct(s.push(k)),
        string_set(s.push(k)) =~= string_set(s).insert(k@),
{
    let t = s.push(k);
    assert forall|i: int, j: int|
        0 <= i < t.len() && 0 <= j < t.len() && i != j implies (#[trigger] t[i])@ != (
        #[trigger] t[j])@ by {
        if i < s.len() && j < s.len() {
            assert(t[i] == s[i] && t[j] == s[j]);
        } else if i < s.len() {
            assert(t[i] == s[i]);
            assert(string_set(s).contains(s[i]@));
        } else {
            assert(t[j] == s[j]);
            assert(string_set(s).contains(s[j]@));
        }
    }
    assert forall|u: Seq<char>| string_set(t).contains(u) <==> (string_set(s).contains(u) || u
        == k@) by {
        if string_set(t).contains(u) {
            let i = choose|i: int| 0 <= i < t.len() && (#[trigger] t[i])@ == u;
            if i < s.len() {
                assert(t[i] == s[i]);
            }
        }
        if string_set(s).contains(u) {
            let i = choose|i: int| 0 <= i < s.len() && (#[trigger] s[i])@ == u;
            assert(t[i] == s[i]);
        }
        if u == k@ {
            assert(t[s.len() as int]@ == u);
        }
    }
}

impl Project {
    #[verifier::type_invariant]
    spec fn inv(self) -> bool {
        keys_distinct(self.allowed_users@) && strings_distinct(self.requests@)
    }

    /// A new public project without password, members or requests, with a
    /// fresh random id.
    pub fn new(owner: String, name: String) -> (r: Project)
        ensures
            r@.owner == owner@,
            r@.name == name@,
            r@.members == Map::<Seq<char>, AccessLevel>::empty(),
            r@.requests == Set::<Seq<char>>::empty(),
            r@.is_public,
            r@.password is None,
            r@.files == Map::<Seq<char>, DocumentView>::empty(),
            !r@.lsp_started,
    {
        let r = Project {
            id: new_uuid(),
            name,
            owner,
            allowed_users: Vec::new(),
            requests: Vec::new(),
            is_public: true,
            password: None,
            documents: ProjectFiles::new(),
            lsp_started: false,
        };
        assert(members_map(r.allowed_users@) =~= Map::<Seq<char>, AccessLevel>::empty());
        assert(string_set(r.requests@) =~= Set::<Seq<char>>::empty());
        r
    }

    /// The project's identifier.
    pub closed spec fn spec_id(&self) -> uuid::Uuid {
        self.id
    }

    pub fn id(&self) -> (r: &uuid::Uuid)
        ensures
            *r == self.spec_id(),
    {
        &self.id
    }

    pub fn name(&self) -> (r: &String)
        ensures
            r@ == self@.name,
    {
        &self.name
    }

    pub fn owner(&self) -> (r: &String)
        ensures
            r@ == self@.owner,
    {
        &self.owner
    }

    pub fn is_public(&self) -> (r: bool)
        ensures
            r == self@.is_public,
    {
        self.is_public
    }

    pub fn password(&self) -> (r: Option<String>)
        ensures
            match r {
                Some(p) => self@.password == Some(p@),
                None => self@.password is None,
            },
    {
        match &self.password {
            Some(p) => Some(p.clone()),
            None => None,
        }
    }

    /// Sets the password that newcomers to the public project must give.
    pub fn set_password(&mut self, password: Option<String>)
        ensures
            final(self).spec_id() == old(self).spec_id(),
            final(self)@ == (ProjectView {
                password: match password {
                    Some(p) => Some(p@),
                    None => None,
                },
                ..old(self)@
            }),
    {
        proof {
            use_type_invariant(&*self);
        }
        self.password = password;
    }

    /// Makes the project public or private.
    pub fn set_public(&mut self, is_public: bool)
        ensures
            final(self).spec_id() == old(self).spec_id(),
            final(self)@ == (ProjectView { is_public, ..old(self)@ }),
    {
        proof {
            use_type_invariant(&*self);
        }
        self.is_public = is_public;
    }

    /// The members with their access levels.
    pub fn allowed_users(&self) -> (r: &Vec<(String, AccessLevel)>)
        ensures
            members_map(r@) == self@.members,
            keys_distinct(r@),
    {
        proof {
            use_type_invariant(self);
        }
        &self.allowed_users
    }

    /// The access level of the member `user_id`, if a member.
    pub fn access_of(&self, user_id: &String) -> (r: Option<AccessLevel>)
        ensures
            self@.members.contains_key(user_id@) ==> r == Some(self@.members[user_id@]),
            !self@.members.contains_key(user_id@) ==> r is None,
    {
        proof {
            use_type_invariant(self);
        }
        match self.member_index(user_id) {
            Some(i) => {
                proof {
                    lemma_members_at(self.allowed_users@, i as int);
                }
                Some(self.allowed_users[i].1)
            },
            None => None,
        }
    }

    fn member_index(&self, user_id: &String) -> (r: Option<usize>)
        ensures
            r matches Some(i) ==> i < self.allowed_users@.len() && self.allowed_users@[i as int].0@
                == user_id@,
            r is None ==> !has_key(self.allowed_users@, user_id@),
    {
        let mut i: usize = 0;
        while i < self.allowed_users.len()
            invariant
                i <= self.allowed_users@.len(),
                forall|j: int| 0 <= j < i ==> (#[trigger] self.allowed_users@[j]).0@ != user_id@,
            decreases self.allowed_users@.len() - i,
        {
            if self.allowed_users[i].0 == *user_id {
                return Some(i);
            }
            i = i + 1;
        }
        None
    }

    /// Gives `user_id` the access `access`, replacing any previous level.
    pub fn permit_access(&mut self, user_id: String, access: AccessLevel)
        ensures
            final(self).spec_id() == old(self).spec_id(),
            final(self)@ == (ProjectView {
                members: old(self)@.members.insert(user_id@, access),
                ..old(self)@
            }),
    {
        proof {
            use_type_invariant(&*self);
        }
        match self.member_index(&user_id) {
            Some(i) => {
                proof {
                    lemma_members_update(self.allowed_users@, i as int, access);
                }
                let key = self.allowed_users[i].0.clone();
                let mut users: Vec<(String, AccessLevel)> = Vec::new();
                std::mem::swap(&mut users, &mut self.allowed_users);
                users.set(i, (key, access));
                self.allowed_users = users;
            },
            None => {
                proof {
                    lemma_members_push(self.allowed_users@, user_id, access);
                }
                let mut users: Vec<(String, AccessLevel)> = Vec::new();
                std::mem::swap(&mut users, &mut self.allowed_users);
                users.push((user_id, access));
                self.allowed_users = users;
            },
        }
    }

    /// Records that `user_info` asks for access. Returns whether the request
    /// is new (and so has to be announced).
    pub fn add_request(&mut self, user_info: &RgUserData) -> (r: bool)
        ensures
            final(self).spec_id() == old(self).spec_id(),
            r == !old(self)@.requests.contains(user_info.id@),
            final(self)@ == (ProjectView {
                requests: old(self)@.requests.insert(user_info.id@),
                ..old(self)@
            }),
    {
        proof {
            use_type_invariant(&*self);
        }
        let mut i: usize = 0;
        while i < self.requests.len()
            invariant
                i <= self.requests@.len(),
                forall|j: int| 0 <= j < i ==> (#[trigger] self.requests@[j])@ != user_info.id@,
            decreases self.requests@.len() - i,
        {
            if self.requests[i] == user_info.id {
                proof {
                    assert(string_set(self.requests@).contains(user_info.id@));
                    assert(string_set(self.requests@).insert(user_info.id@) =~= string_set(
                        self.requests@,
                    ));
                }
                return false;
            }
            i = i + 1;
        }
        let id = user_info.id.clone();
        proof {
            assert(!string_set(self.requests@).contains(user_info.id@));
            lemma_string_set_push(self.requests@, id);
        }
        let mut requests: Vec<String> = Vec::new();
        std::mem::swap(&mut requests, &mut self.requests);
        requests.push(id);
        self.requests = requests;
        true
    }

    /// Lets `user_id` into the project, as [`join_outcome`] and
    /// [`join_state`] describe; a refused password gives `InvalidPassword`.
    pub fn join_project(&mut self, user_id: String, password: Option<String>) -> (r: Result<
        AccessLevel,
        HttpErrors,
    >)
        ensures
            final(self).spec_id() == old(self).spec_id(),
            ({
                let pw = match password {
                    Some(p) => Some(p@),
                    None => None,
                };
                &&& match join_outcome(old(self)@, user_id@, pw) {
                    Some(level) => r matches Ok(l) && l == level,
                    None => r matches Err(HttpErrors::InvalidPassword),
                }
                &&& final(self)@ == join_state(old(self)@, user_id@, pw)
            }),
    {
        if let Some(access) = self.access_of(&user_id) {
            Ok(access)
        } else if !self.is_public {
            Ok(AccessLevel::Queue)
        } else {
            let refused = match &self.password {
                Some(p) => match &password {
                    Some(given) => *given != *p,
                    None => true,
                },
                None => false,
            };
            if refused {
                return Err(HttpErrors::InvalidPassword);
            }
            self.permit_access(user_id, AccessLevel::ReadOnly);
            Ok(AccessLevel::ReadOnly)
        }
    }

    /// A copy of the project for `owner`: same visibility and files (their
    /// texts, without their edits), a name marked as a fork, a fresh id, no
    /// members, requests or password.
    pub fn fork(&self, owner: String) -> (r: Project)
        ensures
            r@.owner == owner@,
            r@.name == fork_name(self@.name),
            r@.members == Map::<Seq<char>, AccessLevel>::empty(),
            r@.requests == Set::<Seq<char>>::empty(),
            r@.is_public == self@.is_public,
            r@.password is None,
            r@.files == forked_files(self@.files),
            !r@.lsp_started,
    {
        let name = if ends_with(self.name.as_str(), " (fork)") {
            self.name.clone()
        } else {
            let mut n = self.name.clone();
            push_str(&mut n, " (fork)");
            n
        };
        let r = Project {
            id: new_uuid(),
            name,
            owner,
            allowed_users: Vec::new(),
            requests: Vec::new(),
            is_public: self.is_public,
            password: None,
            documents: self.documents.fork(),
            lsp_started: false,
        };
        assert(members_map(r.allowed_users@) =~= Map::<Seq<char>, AccessLevel>::empty());
        assert(string_set(r.requests@) =~= Set::<Seq<char>>::empty());
        r
    }

    /// Puts `document` under `path`, replacing a document there, and gives
    /// back the stored document together with what the language server is
    /// told of the new file: for a path ending with `rs` whose URI
    /// `file:///home/<path>` reads as a URI, that URI, version 0 and the
    /// document's text.
    pub fn add_file(&mut self, path: String, document: Document) -> (r: (&Document, Option<FileOpen>))
        ensures
            final(self).spec_id() == old(self).spec_id(),
            final(self)@ == (ProjectView {
                files: old(self)@.files.insert(path@, document@),
                ..old(self)@
            }),
            r.0@ == document@,
            r.1 is Some <==> is_rust_path(path@) && uri_parses(file_uri_spec(path@)),
            r.1 matches Some(o) ==> o.path@ == path@ && o.uri@ == file_uri_spec(path@) && o.version
                == 0 && o.text@ == document@.text,
    {
        proof {
            use_type_invariant(&*self);
        }
        let uri = file_uri(path.as_str());
        let notice = if is_rust_file(path.as_str()) && uri_is_valid(uri.as_str()) {
            Some(FileOpen { path: path.clone(), uri, version: 0, text: document.text() })
        } else {
            None
        };
        let key = path.clone();
        let mut documents = ProjectFiles::new();
        std::mem::swap(&mut documents, &mut self.documents);
        documents.add_file(path, document);
        self.documents = documents;
        (self.documents.file_at(key.as_str()), notice)
    }

    /// The document under `path`, if any.
    pub fn get_file(&self, path: &str) -> (r: Option<&Document>)
        ensures
            self@.files.contains_key(path@) ==> (r matches Some(d) && d@ == self@.files[path@]),
            !self@.files.contains_key(path@) ==> r is None,
    {
        self.documents.get_file(path)
    }

    /// Takes the document under `path` out, if any.
    pub fn rm_file(&mut self, path: &str) -> (r: Option<Document>)
        ensures
            final(self).spec_id() == old(self).spec_id(),
            final(self)@ == (ProjectView { files: old(self)@.files.remove(path@), ..old(self)@ }),
            old(self)@.files.contains_key(path@) ==> (r matches Some(d) && d@ == old(
                self,
            )@.files[path@]),
            !old(self)@.files.contains_key(path@) ==> r is None,
    {
        proof {
            use_type_invariant(&*self);
        }
        let mut documents = ProjectFiles::new();
        std::mem::swap(&mut documents, &mut self.documents);
        let r = documents.rm_file(path);
        self.documents = documents;
        r
    }

    /// The version the language server is told for an edit of `path`: the
    /// document's revision, or 0 where there is no document.
    pub fn file_version(&self, path: &str) -> (r: i32)
        ensures
            self@.files.contains_key(path@) ==> r == self@.files[path@].history.len() as i32,
            !self@.files.contains_key(path@) ==> r == 0,
    {
        self.documents.file_version(path)
    }

    /// Every file with its text and revision.
    pub fn get_files(&self) -> (r: Vec<(String, DocumentInfo)>)
        ensures
            r@.len() == self@.files.dom().len(),
            forall|i: int|
                0 <= i < r@.len() ==> self@.files.contains_key(#[trigger] r@[i].0@) && r@[i].1.text@
                    == self@.files[r@[i].0@].text && r@[i].1.revision
                    == self@.files[r@[i].0@].history.len(),
            forall|p: Seq<char>|
                #[trigger] self@.files.contains_key(p) ==> exists|i: int|
                    0 <= i < r@.len() && r@[i].0@ == p,
            forall|i: int, j: int| 0 <= i < j < r@.len() ==> r@[i].0@ != r@[j].0@,
    {
        self.documents.get_files()
    }

    /// What the language server is told when the file `path` is edited to
    /// `content`, where its URI `file:///home/<path>` reads as a URI (nothing
    /// otherwise): that URI, the version (the document's revision, 0 without
    /// a document) and the new text.
    pub fn file_edit(&self, path: String, content: String) -> (r: Option<FileOpen>)
        ensures
            r is Some <==> uri_parses(file_uri_spec(path@)),
            r matches Some(o) ==> o.path@ == path@ && o.uri@ == file_uri_spec(path@) && (
            self@.files.contains_key(path@) ==> o.version == self@.files[path@].history.len() as i32)
                && (!self@.files.contains_key(path@) ==> o.version == 0) && o.text@ == content@,
    {
        let uri = file_uri(path.as_str());
        if !uri_is_valid(uri.as_str()) {
            return None;
        }
        let version = self.file_version(path.as_str());
        Some(FileOpen { path, uri, version, text: content })
    }

    /// Starts the project's language server once: the first call answers
    /// what the server is to be told of every file whose URI reads as a URI;
    /// later calls answer `None`.
    pub fn start_lsp(&mut self) -> (r: Option<Vec<FileOpen>>)
        ensures
            final(self).spec_id() == old(self).spec_id(),
            final(self)@ == (ProjectView { lsp_started: true, ..old(self)@ }),
            old(self)@.lsp_started ==> r is None,
            !old(self)@.lsp_started ==> (r matches Some(opened) && notices_for(old(self)@.files, opened@)),
    {
        proof {
            use_type_invariant(&*self);
        }
        if self.lsp_started {
            return None;
        }
        let opened = self.documents.open_notifications();
        self.lsp_started = true;
        Some(opened)
    }
}

// ---------------------------------------------------------------------------
// Laws
// ---------------------------------------------------------------------------

/// A join answer is final: once a user has been answered (admitted, queued
/// or recognised as a member), joining again gives the same answer whatever
/// password is then given, and changes nothing more.
pub proof fn law_join_is_stable(
    v: ProjectView,
    user: Seq<char>,
    pw1: Option<Seq<char>>,
    pw2: Option<Seq<char>>,
)
    requires
        join_outcome(v, user, pw1) is Some,
    ensures
        join_outcome(join_state(v, user, pw1), user, pw2) == join_outcome(v, user, pw1),
        join_state(join_state(v, user, pw1), user, pw2) == join_state(v, user, pw1),
{
    let w = join_state(v, user, pw1);
    if !v.members.contains_key(user) && v.is_public {
        assert(w.members.contains_key(user));
        assert(w.members[user] == AccessLevel::ReadOnly);
    }
}

/// A refused password changes nothing: the project stays as it was.
pub proof fn law_refused_join_changes_nothing(v: ProjectView, user: Seq<char>, pw: Option<Seq<char>>)
    requires
        join_outcome(v, user, pw) is None,
    ensures
        join_state(v, user, pw) == v,
        v.is_public && v.password is Some && pw != v.password && !v.members.contains_key(user),
{
}

/// Joining affects no one else: every other user keeps their membership and
/// level, and the joining user can only be added as a reader.
pub proof fn law_join_only_adds_the_joiner_as_reader(
    v: ProjectView,
    user: Seq<char>,
    pw: Option<Seq<char>>,
    other: Seq<char>,
)
    ensures
        other != user ==> (join_state(v, user, pw).members.contains_key(other)
            == v.members.contains_key(other)),
        other != user && v.members.contains_key(other) ==> join_state(v, user, pw).members[other]
            == v.members[other],
        join_state(v, user, pw).members.contains_key(user) && !v.members.contains_key(user) ==> join_state(
            v,
            user,
            pw,
        ).members[user] == AccessLevel::ReadOnly,
{
}

/// Forking a fork keeps its name: the ` (fork)` suffix is added once.
pub proof fn law_fork_name_is_idempotent(name: Seq<char>)
    ensures
        fork_name(fork_name(name)) == fork_name(name),
        has_suffix(fork_name(name), fork_suffix()),
{
    reveal_strlit(" (fork)");
    if !has_suffix(name, fork_suffix()) {
        let n = name + fork_suffix();
        assert(n.subrange(n.len() - fork_suffix().len(), n.len() as int) =~= fork_suffix());
    }
}


/// A member joins with exactly the level stored for them, in a public or a
/// private project and whatever password they give, and joining leaves the
/// project as it was.
pub proof fn law_member_joins_with_their_level(v: ProjectView, user: Seq<char>, pw: Option<Seq<char>>)
    requires
        v.members.contains_key(user),
    ensures
        join_outcome(v, user, pw) == Some(v.members[user]),
        join_state(v, user, pw) == v,
{
}

/// Someone who is not a member of a private project is queued, whatever
/// password they give, and the project is left as it was.
pub proof fn law_stranger_to_a_private_project_is_queued(
    v: ProjectView,
    user: Seq<char>,
    pw: Option<Seq<char>>,
)
    requires
        !v.members.contains_key(user),
        !v.is_public,
    ensures
        join_outcome(v, user, pw) == Some(AccessLevel::Queue),
        join_state(v, user, pw) == v,
{
}

/// Someone who is not a member of a public project is let in as a reader
/// exactly when the project has no password or they give the right one,
/// and is then a member with read access; otherwise they are refused.
pub proof fn law_stranger_to_a_public_project_reads(v: ProjectView, user: Seq<char>, pw: Option<Seq<char>>)
    requires
        !v.members.contains_key(user),
        v.is_public,
    ensures
        (v.password is None || pw == v.password) ==> join_outcome(v, user, pw) == Some(
            AccessLevel::ReadOnly,
        ) && join_state(v, user, pw) == (ProjectView {
            members: v.members.insert(user, AccessLevel::ReadOnly),
            ..v
        }),
        !(v.password is None || pw == v.password) ==> join_state(v, user, pw) == v,
        !(v.password is None || pw == v.password) ==> join_outcome(v, user, pw) is None,
{
}

} // verus!
