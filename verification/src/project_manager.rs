//! The registry of open projects, by id.
use vstd::prelude::*;

use crate::access::{AccessLevel, ServerMessageError};
use crate::auth::RgUserData;
use crate::http_errors::HttpErrors;
use crate::outside::uuid_eq;
use crate::collab::{Document, DocumentView};
use crate::files::forked_files;
use crate::project::{fork_name, join_outcome, join_state, Project, ProjectView};
use crate::strs::{has_prefix, owned, strip_prefix};

verus! {

/// No id appears twice.
pub open spec fn ids_distinct(s: Seq<Project>) -> bool {
    forall|i: int, j: int|
        0 <= i < s.len() && 0 <= j < s.len() && i != j ==> (#[trigger] s[i]).spec_id() != (
        #[trigger] s[j]).spec_id()
}

/// The projects as a map from id to project.
pub open spec fn projects_map(s: Seq<Project>) -> Map<uuid::Uuid, Project> {
    Map::new(
        |id: uuid::Uuid| exists|i: int| 0 <= i < s.len() && (#[trigger] s[i]).spec_id() == id,
        |id: uuid::Uuid| s[choose|i: int| 0 <= i < s.len() && (#[trigger] s[i]).spec_id() == id],
    )
}

/// The open projects, each under its id.
pub struct ProjectManager {
    projects: Vec<Project>,
}

impl View for ProjectManager {
    type V = Map<uuid::Uuid, Project>;

    closed spec fn view(&self) -> Map<uuid::Uuid, Project> {
        projects_map(self.projects@)
    }
}

proof fn lemma_entry_at(s: Seq<Project>, i: int)
    requires
        ids_distinct(s),
        0 <= i < s.len(),
    ensures
        projects_map(s).contains_key(s[i].spec_id()),
        projects_map(s)[s[i].spec_id()] == s[i],
{
    let id = s[i].spec_id();
    let j = choose|j: int| 0 <= j < s.len() && (#[trigger] s[j]).spec_id() == id;
    assert(j == i);
}

/// Putting a project in the place of one of the same id replaces that
/// entry of the map and keeps the ids distinct.
proof fn lemma_update_same_id(s: Seq<Project>, i: int, p: Project)
    requires
        ids_distinct(s),
        0 <= i < s.len(),
        p.spec_id() == s[i].spec_id(),
    ensures
        ids_distinct(s.update(i, p)),
        projects_map(s.update(i, p)) == projects_map(s).insert(p.spec_id(), p),
{
    let t = s.update(i, p);
    let id = p.spec_id();
    assert forall|a: int, b: int|
        0 <= a < t.len() && 0 <= b < t.len() && a != b implies (#[trigger] t[a]).spec_id() != (
        #[trigger] t[b]).spec_id() by {
        assert(t[a].spec_id() == s[a].spec_id() && t[b].spec_id() == s[b].spec_id());
    }
    assert forall|k: uuid::Uuid| #[trigger]
        projects_map(t).contains_key(k) == projects_map(s).insert(id, p).contains_key(k) by {
        if projects_map(t).contains_key(k) {
            let j = choose|j: int| 0 <= j < t.len() && (#[trigger] t[j]).spec_id() == k;
            assert(s[j].spec_id() == k);
        }
        if projects_map(s).contains_key(k) {
            let j = choose|j: int| 0 <= j < s.len() && (#[trigger] s[j]).spec_id() == k;
            assert(t[j].spec_id() == k);
        }
        if k == id {
            assert(t[i].spec_id() == k);
        }
    }
    assert forall|k: uuid::Uuid| #[trigger]
        projects_map(t).contains_key(k) implies projects_map(t)[k] == projects_map(s).insert(
        id,
        p,
    )[k] by {
        let j = choose|j: int| 0 <= j < t.len() && (#[trigger] t[j]).spec_id() == k;
        lemma_entry_at(t, j);
        if k != id {
            assert(j != i);
            lemma_entry_at(s, j);
        } else {
            assert(j == i);
        }
    }
    assert(projects_map(t) =~= projects_map(s).insert(id, p));
}

/// Appending a project of a new id adds it to the map and keeps the ids
/// distinct.
proof fn lemma_push_new_id(s: Seq<Project>, p: Project)
    requires
        ids_distinct(s),
        forall|i: int| 0 <= i < s.len() ==> (#[trigger] s[i]).spec_id() != p.spec_id(),
    ensures
        ids_distinct(s.push(p)),
        projects_map(s.push(p)) == projects_map(s).insert(p.spec_id(), p),
{
    let t = s.push(p);
    let id = p.spec_id();
    let n = s.len() as int;
    assert forall|a: int, b: int|
        0 <= a < t.len() && 0 <= b < t.len() && a != b implies (#[trigger] t[a]).spec_id() != (
        #[trigger] t[b]).spec_id() by {
        if a < n && b < n {
            assert(t[a] == s[a] && t[b] == s[b]);
        } else if a < n {
            assert(t[a] == s[a]);
        } else {
            assert(t[b] == s[b]);
        }
    }
    assert forall|k: uuid::Uuid| #[trigger]
        projects_map(t).contains_key(k) == projects_map(s).insert(id, p).contains_key(k) by {
        if projects_map(t).contains_key(k) && k != id {
            let j = choose|j: int| 0 <= j < t.len() && (#[trigger] t[j]).spec_id() == k;
            assert(j < n);
            assert(s[j].spec_id() == k);
        }
        if projects_map(s).contains_key(k) {
            let j = choose|j: int| 0 <= j < s.len() && (#[trigger] s[j]).spec_id() == k;
            assert(t[j].spec_id() == k);
        }
        if k == id {
            assert(t[n].spec_id() == k);
        }
    }
    assert forall|k: uuid::Uuid| #[trigger]
        projects_map(t).contains_key(k) implies projects_map(t)[k] == projects_map(s).insert(
        id,
        p,
    )[k] by {
        let j = choose|j: int| 0 <= j < t.len() && (#[trigger] t[j]).spec_id() == k;
        lemma_entry_at(t, j);
        if k != id {
            assert(j < n);
            assert(t[j] == s[j]);
            lemma_entry_at(s, j);
        } else {
            assert(j == n);
        }
    }
    assert(projects_map(t) =~= projects_map(s).insert(id, p));
}

/// The position of the project of id `id` in `projects`, if any.
fn position_of(projects: &Vec<Project>, id: &uuid::Uuid) -> (r: Option<usize>)
    ensures
        r matches Some(i) ==> i < projects@.len() && projects@[i as int].spec_id() == *id,
        r is None ==> forall|i: int|
            0 <= i < projects@.len() ==> (#[trigger] projects@[i]).spec_id() != *id,
{
    let mut i: usize = 0;
    while i < projects.len()
        invariant
            i <= projects@.len(),
            forall|j: int| 0 <= j < i ==> (#[trigger] projects@[j]).spec_id() != *id,
        decreases projects@.len() - i,
    {
        if uuid_eq(projects[i].id(), id) {
            return Some(i);
        }
        i = i + 1;
    }
    None
}

impl ProjectManager {
    #[verifier::type_invariant]
    spec fn inv(self) -> bool {
        ids_distinct(self.projects@)
    }

    /// No projects.
    pub fn new() -> (r: Self)
        ensures
            r@ == Map::<uuid::Uuid, Project>::empty(),
    {
        let r = ProjectManager { projects: Vec::new() };
        assert(r@ =~= Map::<uuid::Uuid, Project>::empty());
        r
    }

    /// Registers `project` under its id, replacing a project of the same id,
    /// and gives it back as registered.
    pub fn add_project(&mut self, project: Project) -> (r: &Project)
        ensures
            final(self)@ == old(self)@.insert(project.spec_id(), project),
            *r == project,
    {
        proof {
            use_type_invariant(&*self);
        }
        let ghost old_s = self.projects@;
        let mut projects: Vec<Project> = Vec::new();
        std::mem::swap(&mut projects, &mut self.projects);
        let at = match position_of(&projects, project.id()) {
            Some(i) => {
                proof {
                    lemma_update_same_id(old_s, i as int, project);
                }
                projects.set(i, project);
                i
            },
            None => {
                proof {
                    lemma_push_new_id(old_s, project);
                }
                projects.push(project);
                projects.len() - 1
            },
        };
        self.projects = projects;
        &self.projects[at]
    }

    /// The project registered under `id`, or `ProjectNotFound(id)`.
    pub fn get_project(&self, id: uuid::Uuid) -> (r: Result<&Project, ServerMessageError>)
        ensures
            self@.contains_key(id) ==> r == Ok::<&Project, ServerMessageError>(&self@[id]),
            !self@.contains_key(id) ==> r == Err::<&Project, ServerMessageError>(
                ServerMessageError::ProjectNotFound(id),
            ),
    {
        proof {
            use_type_invariant(self);
        }
        match position_of(&self.projects, &id) {
            Some(i) => {
                proof {
                    lemma_entry_at(self.projects@, i as int);
                }
                Ok(&self.projects[i])
            },
            None => Err(ServerMessageError::ProjectNotFound(id)),
        }
    }
}

/// The password given in a query string `p=<password>`: the text after
/// `p=`, where the query starts with it and something follows.
pub open spec fn query_password(query: Seq<char>) -> Option<Seq<char>> {
    if has_prefix(query, "p="@) && query.len() > 2 {
        Some(query.skip(2))
    } else {
        None
    }
}

/// Reads the password of a request for a project from its query string.
pub fn password_from_query(query: &str) -> (r: Option<String>)
    ensures
        match query_password(query@) {
            Some(p) => r matches Some(s) && s@ == p,
            None => r is None,
        },
{
    proof {
        reveal_strlit("p=");
    }
    match strip_prefix(query, "p=") {
        Some(rest) => if rest.as_str().unicode_len() > 0 {
            Some(rest)
        } else {
            None
        },
        None => None,
    }
}

/// A password as the contracts see it.
pub open spec fn password_view(password: Option<String>) -> Option<Seq<char>> {
    match password {
        Some(p) => Some(p@),
        None => None,
    }
}

/// The project after `user` asked to open it and `level` came out of the
/// join: a user who may not read is added to the requests.
pub open spec fn opened_state(v: ProjectView, user: Seq<char>, password: Option<Seq<char>>) -> ProjectView {
    let joined = join_state(v, user, password);
    match join_outcome(v, user, password) {
        Some(level) => if level.spec_can_read() {
            joined
        } else {
            ProjectView { requests: joined.requests.insert(user), ..joined }
        },
        None => joined,
    }
}

/// The fork of the project `v` for `owner`, who edits it.
pub open spec fn forked_view(v: ProjectView, owner: Seq<char>) -> ProjectView {
    ProjectView {
        name: fork_name(v.name),
        owner,
        members: Map::empty().insert(owner, AccessLevel::Editor),
        requests: Set::empty(),
        is_public: v.is_public,
        password: None,
        files: forked_files(v.files),
        lsp_started: false,
    }
}

/// The program a new project starts with, in `main.rs`.
pub const MAIN_RS: &'static str = r#"fn main() {
    for i in 0..30 {
        println!("[{i}] \x1b[31mHello \x1b[1mWorld\x1b[0m!");
        std::thread::sleep(std::time::Duration::from_millis(100))
    }
}"#;

/// The files of a new project: `main.rs` with the starting program.
pub open spec fn starting_files() -> Map<Seq<char>, DocumentView> {
    Map::empty().insert("main.rs"@, DocumentView { text: MAIN_RS@, history: Seq::empty(), cursors: Seq::empty() })
}

/// A new project `name` of `owner`, with the starting files.
pub open spec fn new_project_view(owner: Seq<char>, name: Seq<char>) -> ProjectView {
    ProjectView {
        name,
        owner,
        members: Map::empty(),
        requests: Set::empty(),
        is_public: true,
        password: None,
        files: starting_files(),
        lsp_started: false,
    }
}

/// A new project `name` of `owner`, who edits it.
pub open spec fn created_view(owner: Seq<char>, name: Seq<char>) -> ProjectView {
    ProjectView {
        members: Map::empty().insert(owner, AccessLevel::Editor),
        ..new_project_view(owner, name)
    }
}

impl ProjectManager {
    /// Lets `user` open the project `id` with `password`: the level the join
    /// gives (see [`join_outcome`]), and whether an access request is to be
    /// announced: a user who may not read is added to the project's
    /// requests, and the request is announced when it is new.
    /// `ProjectDoesNotExist` for an unknown id,
    /// `InvalidPassword` where the join refuses the password.
    pub fn open_project(&mut self, id: uuid::Uuid, user: &RgUserData, password: Option<String>) -> (r:
        Result<(AccessLevel, bool), HttpErrors>)
        ensures
            !old(self)@.contains_key(id) ==> (r matches Err(HttpErrors::ProjectDoesNotExist)
                && final(self)@ == old(self)@),
            old(self)@.contains_key(id) ==> ({
                let v = old(self)@[id]@;
                let pw = password_view(password);
                &&& match join_outcome(v, user.id@, pw) {
                    Some(level) => r matches Ok((l, announce)) && l == level && announce == (
                    !level.spec_can_read() && !v.requests.contains(user.id@)),
                    None => r matches Err(HttpErrors::InvalidPassword),
                }
                &&& final(self)@.dom() == old(self)@.dom()
                &&& forall|k: uuid::Uuid| k != id && #[trigger] old(self)@.contains_key(k) ==> final(self)@[k]
                    == old(self)@[k]
                &&& final(self)@[id].spec_id() == id
                &&& final(self)@[id]@ == opened_state(v, user.id@, pw)
            }),
    {
        proof {
            use_type_invariant(&*self);
        }
        let ghost old_s = self.projects@;
        let ghost pw = password_view(password);
        let i = match position_of(&self.projects, &id) {
            Some(i) => i,
            None => return Err(HttpErrors::ProjectDoesNotExist),
        };
        proof {
            lemma_entry_at(old_s, i as int);
        }
        let mut projects: Vec<Project> = Vec::new();
        std::mem::swap(&mut projects, &mut self.projects);
        let mut project = projects.remove(i);
        let joined = project.join_project(user.id.clone(), password);
        let r = match joined {
            Ok(level) => {
                let announce = if !level.can_read() {
                    project.add_request(user)
                } else {
                    false
                };
                Ok((level, announce))
            },
            Err(e) => Err(e),
        };
        projects.insert(i, project);
        proof {
            assert(projects@ =~= old_s.update(i as int, project));
            lemma_update_same_id(old_s, i as int, project);
        }
        self.projects = projects;
        r
    }

    /// Forks the project `id` for its member `user_id`, who becomes the
    /// fork's editor, and answers the fork's id. `ProjectDoesNotExist` for
    /// an unknown id, `NotAccessible` where `user_id` is no member.
    pub fn fork_project(&mut self, id: uuid::Uuid, user_id: String) -> (r: Result<uuid::Uuid, HttpErrors>)
        ensures
            !old(self)@.contains_key(id) ==> (r matches Err(HttpErrors::ProjectDoesNotExist)
                && final(self)@ == old(self)@),
            old(self)@.contains_key(id) && !old(self)@[id]@.members.contains_key(user_id@) ==> (r matches Err(
                HttpErrors::NotAccessible,
            ) && final(self)@ == old(self)@),
            old(self)@.contains_key(id) && old(self)@[id]@.members.contains_key(user_id@) ==> (r matches Ok(
                new_id,
            ) && final(self)@.contains_key(new_id) && final(self)@ == old(self)@.insert(
                new_id,
                final(self)@[new_id],
            ) && final(self)@[new_id].spec_id() == new_id && final(self)@[new_id]@ == forked_view(
                old(self)@[id]@,
                user_id@,
            )),
    {
        let forked = match self.get_project(id) {
            Ok(project) => {
                if project.access_of(&user_id).is_none() {
                    return Err(HttpErrors::NotAccessible);
                }
                project.fork(user_id.clone())
            },
            Err(_) => return Err(HttpErrors::ProjectDoesNotExist),
        };
        let mut forked = forked;
        forked.permit_access(user_id, AccessLevel::Editor);
        let new_id = *forked.id();
        proof {
            assert(forked@.members =~= Map::<Seq<char>, AccessLevel>::empty().insert(user_id@, AccessLevel::Editor));
        }
        self.add_project(forked);
        Ok(new_id)
    }

    /// Creates the project `name` of `owner_id`, who edits it, and answers
    /// its id.
    pub fn create_project(&mut self, owner: &RgUserData, name: String) -> (r: uuid::Uuid)
        ensures
            final(self)@.contains_key(r),
            final(self)@ == old(self)@.insert(r, final(self)@[r]),
            final(self)@[r].spec_id() == r,
            final(self)@[r]@ == created_view(owner.id@, name@),
    {
        let mut project = Project::new(owner.id.clone(), name);
        project.add_file(owned("main.rs"), Document::new_with(owned(MAIN_RS)));
        project.permit_access(owner.id.clone(), AccessLevel::Editor);
        let id = *project.id();
        proof {
            assert(project@.members =~= Map::<Seq<char>, AccessLevel>::empty().insert(owner.id@, AccessLevel::Editor));
            assert(project@.files =~= starting_files());
        }
        self.add_project(project);
        id
    }

    /// Registers a new project `name` of `owner`, holding the starting
    /// program in `main.rs`, and answers its id.
    pub fn new_project(&mut self, owner: &RgUserData, name: String) -> (r: uuid::Uuid)
        ensures
            final(self)@.contains_key(r),
            final(self)@ == old(self)@.insert(r, final(self)@[r]),
            final(self)@[r].spec_id() == r,
            final(self)@[r]@ == new_project_view(owner.id@, name@),
    {
        let mut project = Project::new(owner.id.clone(), name);
        project.add_file(owned("main.rs"), Document::new_with(owned(MAIN_RS)));
        let id = *project.id();
        proof {
            assert(project@.files =~= starting_files());
        }
        self.add_project(project);
        id
    }
}

/// Opening a project again gives the same answer as the first time, once
/// that answer was a level (whatever password is then given), and leaves
/// the project as the first opening left it.
pub proof fn law_open_is_stable(
    v: ProjectView,
    user: Seq<char>,
    pw1: Option<Seq<char>>,
    pw2: Option<Seq<char>>,
)
    requires
        join_outcome(v, user, pw1) is Some,
    ensures
        join_outcome(opened_state(v, user, pw1), user, pw2) == join_outcome(v, user, pw1),
        opened_state(opened_state(v, user, pw1), user, pw2) == opened_state(v, user, pw1),
{
    crate::project::law_join_is_stable(v, user, pw1, pw2);
    let w = opened_state(v, user, pw1);
    let j = join_state(v, user, pw1);
    assert(w.members == j.members && w.is_public == j.is_public && w.password == j.password);
    assert(join_outcome(w, user, pw2) == join_outcome(j, user, pw2));
    let level = join_outcome(v, user, pw1)->0;
    if !level.spec_can_read() {
        assert(j.requests.insert(user).insert(user) =~= j.requests.insert(user));
    }
}

/// What `get_project` answers after `add_project`: the project just added
/// under its own id, and for every other id what it answered before.
pub proof fn law_get_after_add(before: Map<uuid::Uuid, Project>, p: Project, other: uuid::Uuid)
    ensures
        before.insert(p.spec_id(), p).contains_key(p.spec_id()),
        before.insert(p.spec_id(), p)[p.spec_id()] == p,
        other != p.spec_id() ==> before.insert(p.spec_id(), p).contains_key(other)
            == before.contains_key(other),
        other != p.spec_id() && before.contains_key(other) ==> before.insert(p.spec_id(), p)[other]
            == before[other],
{
}


/// A member who may read opens the project with exactly their stored level,
/// in a public or a private project and whatever password they give: no
/// access request is made and the project is left as it was.
pub proof fn law_member_opens_with_their_level(v: ProjectView, user: Seq<char>, pw: Option<Seq<char>>)
    requires
        v.members.contains_key(user),
        v.members[user].spec_can_read(),
    ensures
        join_outcome(v, user, pw) == Some(v.members[user]),
        opened_state(v, user, pw) == v,
{
    crate::project::law_member_joins_with_their_level(v, user, pw);
}

/// Whoever opens a project and may not read it afterwards is among its
/// access requests; nobody's membership changes but the opener's.
pub proof fn law_who_may_not_read_is_requested(v: ProjectView, user: Seq<char>, pw: Option<Seq<char>>)
    ensures
        join_outcome(v, user, pw) matches Some(level) && !level.spec_can_read() ==> opened_state(
            v,
            user,
            pw,
        ).requests == v.requests.insert(user),
        forall|other: Seq<char>|
            other != user ==> (#[trigger] opened_state(v, user, pw).members.contains_key(other)
                == v.members.contains_key(other)),
{
}

/// A fork keeps its source's visibility and files (settled), drops its
/// password and requests, and has the one who forked it as its only
/// member, an editor.
pub proof fn law_fork_keeps_visibility(v: ProjectView, owner: Seq<char>)
    ensures
        forked_view(v, owner).is_public == v.is_public,
        forked_view(v, owner).password is None,
        forked_view(v, owner).requests.is_empty(),
        forked_view(v, owner).owner == owner,
        forked_view(v, owner).members.dom() == Set::<Seq<char>>::empty().insert(owner),
        forked_view(v, owner).members[owner] == AccessLevel::Editor,
        forked_view(v, owner).name == fork_name(v.name),
        !forked_view(v, owner).lsp_started,
        forked_view(v, owner).files.dom() == v.files.dom(),
        forall|p: Seq<char>|
            #[trigger] v.files.contains_key(p) ==> forked_view(v, owner).files[p].text == v.files[p].text
                && forked_view(v, owner).files[p].history.len() == 0
                && forked_view(v, owner).files[p].cursors.len() == 0,
{
    assert(forked_view(v, owner).members.dom() =~= Set::<Seq<char>>::empty().insert(owner));
    assert(forked_files(v.files).dom() =~= v.files.dom());
}

} // verus!
