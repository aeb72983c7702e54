//! The config store: owns the single in-memory [`KubeConfig`] and is the
//! only code that mutates it. Its operations list and select contexts,
//! resolve a context to its user, and apply a validated token.

use vstd::prelude::*;

use crate::errors::KmanError;
use crate::kubeconfig::{KubeConfig, NamedContext, NamedUser};
use crate::text::str_eq;
use crate::token::{is_valid_token, valid_token};

verus! {

/// One row of a context listing: the context's name and whether it is the
/// current one.
#[derive(Debug, Clone, PartialEq)]
pub struct ContextEntry {
    /// The context's name, as it stands in the document.
    pub name: String,
    /// Whether this context is the current context.
    pub is_current: bool,
}

/// Whether some entry of `contexts` carries the name `name`.
pub open spec fn has_context(contexts: Seq<NamedContext>, name: Seq<char>) -> bool {
    exists|i: int| 0 <= i < contexts.len() && contexts[i].name@ == name
}

/// Whether `i` is the first index of `contexts` whose entry carries `name`.
pub open spec fn is_first_context_match(
    contexts: Seq<NamedContext>,
    name: Seq<char>,
    i: int,
) -> bool {
    &&& 0 <= i < contexts.len()
    &&& contexts[i].name@ == name
    &&& forall|j: int| 0 <= j < i ==> contexts[j].name@ != name
}

/// Whether some entry of `users` carries the name `name`.
pub open spec fn has_user(users: Seq<NamedUser>, name: Seq<char>) -> bool {
    exists|i: int| 0 <= i < users.len() && users[i].name@ == name
}

/// Whether `i` is the first index of `users` whose entry carries `name`.
pub open spec fn is_first_user_match(users: Seq<NamedUser>, name: Seq<char>, i: int) -> bool {
    &&& 0 <= i < users.len()
    &&& users[i].name@ == name
    &&& forall|j: int| 0 <= j < i ==> users[j].name@ != name
}

/// Whether `entries` is the listing of `contexts` under current context
/// `current`: one row per context, in order, marked current exactly when
/// its name equals `current`.
pub open spec fn entries_match(
    entries: Seq<ContextEntry>,
    contexts: Seq<NamedContext>,
    current: Seq<char>,
) -> bool {
    &&& entries.len() == contexts.len()
    &&& forall|i: int| 0 <= i < contexts.len() ==> (#[trigger] entries[i].name)@ == contexts[i].name@
    &&& forall|i: int|
        0 <= i < contexts.len() ==> ((#[trigger] entries[i]).is_current <==> contexts[i].name@
            == current)
}

/// The user name referenced by the first context named `name`.
pub open spec fn first_context_user(contexts: Seq<NamedContext>, name: Seq<char>) -> Seq<char>
    recommends
        has_context(contexts, name),
{
    contexts[choose|i: int| is_first_context_match(contexts, name, i)].context.user@
}

/// Whether `after` is `before` with exactly the token of the first user
/// named `user_name` replaced by `token`, and every other entry untouched.
pub open spec fn token_applied(
    before: Seq<NamedUser>,
    after: Seq<NamedUser>,
    user_name: Seq<char>,
    token: Seq<char>,
) -> bool {
    &&& after.len() == before.len()
    &&& exists|i: int|
        {
            &&& #[trigger] is_first_user_match(before, user_name, i)
            &&& after[i].name == before[i].name
            &&& after[i].user.token@ == token
            &&& forall|j: int| 0 <= j < before.len() && j != i ==> after[j] == before[j]
        }
}

/// Whether two configs agree on everything but the current context.
pub open spec fn eq_except_current_context(before: KubeConfig, after: KubeConfig) -> bool {
    &&& after.api_version == before.api_version
    &&& after.kind == before.kind
    &&& after.clusters == before.clusters
    &&& after.contexts == before.contexts
    &&& after.users == before.users
}

/// Whether two configs agree on everything but the users.
pub open spec fn eq_except_users(before: KubeConfig, after: KubeConfig) -> bool {
    &&& after.api_version == before.api_version
    &&& after.kind == before.kind
    &&& after.clusters == before.clusters
    &&& after.contexts == before.contexts
    &&& after.current_context == before.current_context
}

/// The context a refresh aims at: the caller's choice when one was given,
/// the current context otherwise.
pub open spec fn target_context_name(
    context_name: Option<String>,
    current: Seq<char>,
) -> Seq<char> {
    match context_name {
        Some(n) => n@,
        None => current,
    }
}

/// Finds the first context whose name equals `name`.
fn find_context_index(contexts: &Vec<NamedContext>, name: &str) -> (r: Option<usize>)
    ensures
        match r {
            Some(i) => is_first_context_match(contexts@, name@, i as int),
            None => !has_context(contexts@, name@),
        },
{
    let n = contexts.len();
    let mut i: usize = 0;
    while i < n
        invariant
            i <= n,
            n == contexts@.len(),
            forall|j: int| 0 <= j < i ==> contexts@[j].name@ != name@,
        decreases n - i,
    {
        if str_eq(contexts[i].name.as_str(), name) {
            return Some(i);
        }
        i += 1;
    }
    None
}

/// Finds the first user whose name equals `name`.
fn find_user_index(users: &Vec<NamedUser>, name: &str) -> (r: Option<usize>)
    ensures
        match r {
            Some(i) => is_first_user_match(users@, name@, i as int),
            None => !has_user(users@, name@),
        },
{
    let n = users.len();
    let mut i: usize = 0;
    while i < n
        invariant
            i <= n,
            n == users@.len(),
            forall|j: int| 0 <= j < i ==> users@[j].name@ != name@,
        decreases n - i,
    {
        if str_eq(users[i].name.as_str(), name) {
            return Some(i);
        }
        i += 1;
    }
    None
}

/// The state manager: the sole owner of the in-memory config.
pub struct Kman {
    /// The parsed kubeconfig held for the lifetime of the command.
    pub kubeconfig: KubeConfig,
}

impl Kman {
    /// Creates a new instance holding the given config.
    pub fn new(kubeconfig: KubeConfig) -> (r: Kman)
        ensures
            r.kubeconfig == kubeconfig,
    {
        Kman { kubeconfig }
    }

    /// Returns the names of all contexts, in file order.
    pub fn get_all_contexts(&self) -> (names: Vec<String>)
        ensures
            names@.len() == self.kubeconfig.contexts@.len(),
            forall|i: int|
                0 <= i < names@.len() ==> (#[trigger] names@[i])@
                    == self.kubeconfig.contexts@[i].name@,
    {
        let mut names: Vec<String> = Vec::new();
        let n = self.kubeconfig.contexts.len();
        let mut i: usize = 0;
        while i < n
            invariant
                i <= n,
                n == self.kubeconfig.contexts@.len(),
                names@.len() == i,
                forall|j: int|
                    0 <= j < i ==> (#[trigger] names@[j])@ == self.kubeconfig.contexts@[j].name@,
            decreases n - i,
        {
            names.push(self.kubeconfig.contexts[i].name.clone());
            i += 1;
        }
        names
    }

    /// Lists the contexts in file order, each marked current exactly when
    /// its name equals the current context. Fails when there are none.
    pub fn list_contexts(&self) -> (r: Result<Vec<ContextEntry>, KmanError>)
        ensures
            match r {
                Ok(entries) => self.kubeconfig.contexts@.len() > 0 && entries_match(
                    entries@,
                    self.kubeconfig.contexts@,
                    self.kubeconfig.current_context@,
                ),
                Err(e) => e == KmanError::EmptyConfig && self.kubeconfig.contexts@.len() == 0,
            },
    {
        let n = self.kubeconfig.contexts.len();
        if n == 0 {
            return Err(KmanError::EmptyConfig);
        }
        let mut entries: Vec<ContextEntry> = Vec::new();
        let mut i: usize = 0;
        while i < n
            invariant
                i <= n,
                n == self.kubeconfig.contexts@.len(),
                entries@.len() == i,
                forall|j: int|
                    0 <= j < i ==> (#[trigger] entries@[j].name)@
                        == self.kubeconfig.contexts@[j].name@,
                forall|j: int|
                    0 <= j < i ==> ((#[trigger] entries@[j]).is_current
                        <==> self.kubeconfig.contexts@[j].name@
                        == self.kubeconfig.current_context@),
            decreases n - i,
        {
            let ctx = &self.kubeconfig.contexts[i];
            let is_current = str_eq(ctx.name.as_str(), self.kubeconfig.current_context.as_str());
            entries.push(ContextEntry { name: ctx.name.clone(), is_current });
            i += 1;
        }
        Ok(entries)
    }

    /// Sets the current context to `context_name` when a context of that
    /// name exists; otherwise fails and leaves the model unchanged.
    pub fn select_context(&mut self, context_name: String) -> (r: Result<(), KmanError>)
        ensures
            match r {
                Ok(()) => {
                    &&& has_context(old(self).kubeconfig.contexts@, context_name@)
                    &&& final(self).kubeconfig.current_context@ == context_name@
                    &&& eq_except_current_context(old(self).kubeconfig, final(self).kubeconfig)
                },
                Err(e) => {
                    &&& e == KmanError::ContextNotFound
                    &&& !has_context(old(self).kubeconfig.contexts@, context_name@)
                    &&& *final(self) == *old(self)
                },
            },
    {
        match find_context_index(&self.kubeconfig.contexts, context_name.as_str()) {
            Some(_) => {
                self.kubeconfig.current_context = context_name;
                Ok(())
            },
            None => Err(KmanError::ContextNotFound),
        }
    }

    /// Returns the user referenced by the first context named
    /// `context_name`; the user's own existence is not checked here.
    pub fn get_user_from_context_name(&self, context_name: String) -> (r: Result<
        String,
        KmanError,
    >)
        ensures
            match r {
                Ok(user) => {
                    &&& has_context(self.kubeconfig.contexts@, context_name@)
                    &&& user@ == first_context_user(self.kubeconfig.contexts@, context_name@)
                },
                Err(e) => {
                    &&& e == KmanError::ContextNotFound
                    &&& !has_context(self.kubeconfig.contexts@, context_name@)
                },
            },
    {
        match find_context_index(&self.kubeconfig.contexts, context_name.as_str()) {
            Some(i) => {
                proof {
                    let j = choose|j: int|
                        is_first_context_match(self.kubeconfig.contexts@, context_name@, j);
                    assert(is_first_context_match(
                        self.kubeconfig.contexts@,
                        context_name@,
                        i as int,
                    ));
                    lemma_first_context_match_unique(
                        self.kubeconfig.contexts@,
                        context_name@,
                        i as int,
                        j,
                    );
                }
                Ok(self.kubeconfig.contexts[i].context.user.clone())
            },
            None => Err(KmanError::ContextNotFound),
        }
    }

    /// Overwrites the token of the first user named `user_name`; later
    /// entries of the same name are left untouched. Fails and leaves the
    /// model unchanged when no user carries that name.
    pub fn apply_token(&mut self, user_name: &str, token: &str) -> (r: Result<(), KmanError>)
        ensures
            match r {
                Ok(()) => {
                    &&& has_user(old(self).kubeconfig.users@, user_name@)
                    &&& token_applied(
                        old(self).kubeconfig.users@,
                        final(self).kubeconfig.users@,
                        user_name@,
                        token@,
                    )
                    &&& eq_except_users(old(self).kubeconfig, final(self).kubeconfig)
                },
                Err(e) => {
                    &&& e == KmanError::UserNotFound
                    &&& !has_user(old(self).kubeconfig.users@, user_name@)
                    &&& *final(self) == *old(self)
                },
            },
    {
        match find_user_index(&self.kubeconfig.users, user_name) {
            Some(i) => {
                let name = self.kubeconfig.users[i].name.clone();
                self.kubeconfig.users.set(
                    i,
                    NamedUser { name, user: crate::kubeconfig::User { token: token.to_owned() } },
                );
                Ok(())
            },
            None => Err(KmanError::UserNotFound),
        }
    }

    /// Refreshes the token of the context named by `context_name`, or of
    /// the current context when none is given: resolves the context to its
    /// user, validates the candidate token, and applies it. Either exactly
    /// one token changes, or the model is left exactly as it was.
    pub fn update_token(&mut self, context_name: Option<String>, token: &str) -> (r: Result<
        (),
        KmanError,
    >)
        ensures
            match r {
                Ok(()) => {
                    let target = target_context_name(
                        context_name,
                        old(self).kubeconfig.current_context@,
                    );
                    let user = first_context_user(old(self).kubeconfig.contexts@, target);
                    &&& has_context(old(self).kubeconfig.contexts@, target)
                    &&& valid_token(token@)
                    &&& has_user(old(self).kubeconfig.users@, user)
                    &&& token_applied(
                        old(self).kubeconfig.users@,
                        final(self).kubeconfig.users@,
                        user,
                        token@,
                    )
                    &&& eq_except_users(old(self).kubeconfig, final(self).kubeconfig)
                },
                Err(e) => {
                    let target = target_context_name(
                        context_name,
                        old(self).kubeconfig.current_context@,
                    );
                    &&& *final(self) == *old(self)
                    &&& match e {
                        KmanError::ContextNotFound => !has_context(
                            old(self).kubeconfig.contexts@,
                            target,
                        ),
                        KmanError::InvalidTokenFormat => has_context(
                            old(self).kubeconfig.contexts@,
                            target,
                        ) && !valid_token(token@),
                        KmanError::UserNotFound => {
                            &&& has_context(old(self).kubeconfig.contexts@, target)
                            &&& valid_token(token@)
                            &&& !has_user(
                                old(self).kubeconfig.users@,
                                first_context_user(old(self).kubeconfig.contexts@, target),
                            )
                        },
                        _ => false,
                    }
                },
            },
    {
        let context_to_update = match context_name {
            Some(name) => name,
            None => self.kubeconfig.current_context.clone(),
        };
        let user = match self.get_user_from_context_name(context_to_update) {
            Ok(user) => user,
            Err(e) => {
                return Err(e);
            },
        };
        if !is_valid_token(token) {
            return Err(KmanError::InvalidTokenFormat);
        }
        self.apply_token(user.as_str(), token)
    }
}

/// The display line of one listing row: the name, prefixed with a marker
/// when the row is the current context, closed by a line break.
pub open spec fn rendered_entry(e: ContextEntry) -> Seq<char> {
    if e.is_current {
        "* "@ + e.name@ + "\n"@
    } else {
        e.name@ + "\n"@
    }
}

/// The display string of a whole listing: the rows' lines in order.
pub open spec fn rendered_listing(entries: Seq<ContextEntry>) -> Seq<char>
    decreases entries.len(),
{
    if entries.len() == 0 {
        Seq::empty()
    } else {
        rendered_listing(entries.drop_last()) + rendered_entry(entries.last())
    }
}

/// Renders a context listing for display: one line per context in file
/// order, the current one distinguished by a marker prefix.
pub fn render_context_list(entries: &Vec<ContextEntry>) -> (out: String)
    ensures
        out@ == rendered_listing(entries@),
{
    let mut out = String::new();
    let n = entries.len();
    let mut i: usize = 0;
    while i < n
        invariant
            i <= n,
            n == entries@.len(),
            out@ == rendered_listing(entries@.take(i as int)),
        decreases n - i,
    {
        if entries[i].is_current {
            out.append("* ");
        }
        out.append(entries[i].name.as_str());
        out.append("\n");
        proof {
            assert(entries@.take(i + 1 as int).drop_last() =~= entries@.take(i as int));
            assert(entries@.take(i + 1 as int).last() == entries@[i as int]);
        }
        i += 1;
    }
    proof {
        assert(entries@.take(n as int) =~= entries@);
    }
    out
}

/// First matches are unique: two indices that both come first among the
/// contexts named `name` are the same index.
pub proof fn lemma_first_context_match_unique(
    contexts: Seq<NamedContext>,
    name: Seq<char>,
    i: int,
    j: int,
)
    requires
        is_first_context_match(contexts, name, i),
        is_first_context_match(contexts, name, j),
    ensures
        i == j,
{
}

/// Whether the names of the contexts are pairwise distinct.
pub open spec fn unique_context_names(contexts: Seq<NamedContext>) -> bool {
    forall|i: int, j: int|
        0 <= i < j < contexts.len() ==> (#[trigger] contexts[i].name)@ != (#[trigger] contexts[j].name)@
}

/// A listing of a config with unique context names has one row per context,
/// in file order; exactly one row is marked current when the current
/// context names one of them, and no row is marked otherwise.
pub proof fn lemma_listing_marks_current(
    entries: Seq<ContextEntry>,
    contexts: Seq<NamedContext>,
    current: Seq<char>,
)
    requires
        unique_context_names(contexts),
        entries_match(entries, contexts, current),
    ensures
        entries.len() == contexts.len(),
        forall|i: int| 0 <= i < entries.len() ==> (#[trigger] entries[i].name)@ == contexts[i].name@,
        has_context(contexts, current) ==> exists|i: int|
            {
                &&& 0 <= i < entries.len()
                &&& (#[trigger] entries[i]).is_current
                &&& entries[i].name@ == current
                &&& forall|j: int| 0 <= j < entries.len() && j != i ==> !entries[j].is_current
            },
        !has_context(contexts, current) ==> forall|i: int|
            0 <= i < entries.len() ==> !(#[trigger] entries[i]).is_current,
{
    if has_context(contexts, current) {
        let i = choose|i: int| 0 <= i < contexts.len() && contexts[i].name@ == current;
        assert(entries[i].is_current);
        assert(forall|j: int| 0 <= j < entries.len() && j != i ==> !(#[trigger] entries[j]).is_current);
    }
}

/// Selecting a present context and then listing marks exactly that context
/// as current: `k1` is the store after a successful `select_context(name)`
/// on `k0`, and `entries` is what `list_contexts` then returns.
pub proof fn lemma_select_then_list(
    k0: Kman,
    k1: Kman,
    name: Seq<char>,
    entries: Seq<ContextEntry>,
)
    requires
        unique_context_names(k0.kubeconfig.contexts@),
        has_context(k0.kubeconfig.contexts@, name),
        k1.kubeconfig.current_context@ == name,
        eq_except_current_context(k0.kubeconfig, k1.kubeconfig),
        entries_match(entries, k1.kubeconfig.contexts@, k1.kubeconfig.current_context@),
    ensures
        exists|i: int|
            {
                &&& 0 <= i < entries.len()
                &&& (#[trigger] entries[i]).is_current
                &&& entries[i].name@ == name
                &&& forall|j: int| 0 <= j < entries.len() && j != i ==> !entries[j].is_current
            },
{
    lemma_listing_marks_current(entries, k1.kubeconfig.contexts@, name);
}

} // verus!
