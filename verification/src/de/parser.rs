//! The variables and the returned expression of a document.

use vstd::prelude::*;
use vstd::string::*;

use super::error::{DeErrorKind, RsonDeError, RsonDeResult};
use crate::ser::{lemma_str_views_push, str_views};
use crate::text::{owned, push_char};
use super::expr::{DocExpr, DocMember, DocPath, DocStmt, Token};
use super::syntax::{block_statements, parse_statements};

verus! {

/// The initializer `s` gives to `name`, when `s` is `let name = init;`.
pub open spec fn binds(s: DocStmt, name: Seq<char>) -> Option<DocExpr> {
    match s {
        DocStmt::Local(Some(n), Some(init)) => if n@ == name { Some(init) } else { None },
        _ => None,
    }
}

/// The initializer of the last `let` for `name` among statements `lo..hi`.
pub open spec fn binding_in(stmts: Seq<DocStmt>, name: Seq<char>, lo: nat, hi: nat) -> Option<DocExpr>
    decreases hi,
{
    if hi <= lo || hi > stmts.len() {
        None
    } else {
        match binds(stmts[hi - 1], name) {
            Some(e) => Some(e),
            None => binding_in(stmts, name, lo, (hi - 1) as nat),
        }
    }
}

/// The expression a document returns: its last statement, when that is an
/// expression without a semicolon.
pub open spec fn document_return(stmts: Seq<DocStmt>) -> Option<DocExpr> {
    if stmts.len() > 0 {
        match stmts.last() {
            DocStmt::Expr(e, false) => Some(e),
            _ => None,
        }
    } else {
        None
    }
}

/// How many statements come before the returned expression.
pub open spec fn document_body_len(stmts: Seq<DocStmt>) -> nat {
    if document_return(stmts) is Some {
        (stmts.len() - 1) as nat
    } else {
        stmts.len()
    }
}

/// What a variable of a document stands for: the initializer of its last `let`.
pub open spec fn document_var(stmts: Seq<DocStmt>, name: Seq<char>) -> Option<DocExpr> {
    binding_in(stmts, name, 0, document_body_len(stmts))
}

/// The value bound to `name` in a list of (name, value) pairs, searching from `i`.
pub open spec fn var_lookup_from(vars: Seq<(String, DocExpr)>, name: Seq<char>, i: nat) -> Option<DocExpr>
    decreases vars.len() - i,
{
    if i >= vars.len() {
        None
    } else if vars[i as int].0@ == name {
        Some(vars[i as int].1)
    } else {
        var_lookup_from(vars, name, i + 1)
    }
}

/// The variables and the returned expression of a document.
pub struct RsonParser {
    vars: Vec<(String, DocExpr)>,
    return_expr: Option<DocExpr>,
}

/// Adding a binding for a name not yet bound leaves lookups of other names as they
/// were, and finds the new binding for its name.
proof fn lemma_lookup_push(vars: Seq<(String, DocExpr)>, entry: (String, DocExpr), name: Seq<char>, i: nat)
    requires
        i <= vars.len(),
    ensures
        var_lookup_from(vars.push(entry), name, i) == match var_lookup_from(vars, name, i) {
            Some(e) => Some(e),
            None => if entry.0@ == name { Some(entry.1) } else { None },
        },
    decreases vars.len() - i,
{
    let pushed = vars.push(entry);
    if i < vars.len() {
        assert(pushed[i as int] == vars[i as int]);
        lemma_lookup_push(vars, entry, name, i + 1);
    } else {
        assert(pushed[i as int] == entry);
        assert(var_lookup_from(pushed, name, i + 1) is None);
    }
}

/// Extending the range downwards keeps a binding found above, and otherwise
/// finds the statement added at the bottom.
proof fn lemma_binding_extend(stmts: Seq<DocStmt>, name: Seq<char>, lo: nat, hi: nat)
    requires
        0 < lo <= hi <= stmts.len(),
    ensures
        binding_in(stmts, name, (lo - 1) as nat, hi) == match binding_in(stmts, name, lo, hi) {
            Some(e) => Some(e),
            None => binds(stmts[lo - 1], name),
        },
    decreases hi,
{
    if hi > lo {
        lemma_binding_extend(stmts, name, lo, (hi - 1) as nat);
    } else {
        assert(binding_in(stmts, name, (lo - 1) as nat, (hi - 1) as nat) is None);
    }
}

/// Whether `name` is among the names of `vars`.
fn has_var(vars: &Vec<(String, DocExpr)>, name: &String) -> (r: bool)
    ensures
        r == (var_lookup_from(vars@, name@, 0) is Some),
{
    let mut i: usize = 0;
    while i < vars.len()
        invariant
            i <= vars@.len(),
            var_lookup_from(vars@, name@, 0) == var_lookup_from(vars@, name@, i as nat),
        decreases vars@.len() - i,
    {
        if vars[i].0 == *name {
            return true;
        }
        i = i + 1;
    }
    false
}

impl RsonParser {
    /// What the variable `name` stands for.
    pub closed spec fn var_init(&self, name: Seq<char>) -> Option<DocExpr> {
        var_lookup_from(self.vars@, name, 0)
    }

    /// How many variables the document defines.
    pub closed spec fn var_count(&self) -> nat {
        self.vars@.len()
    }

    /// The expression the document returns.
    pub closed spec fn returned(&self) -> Option<DocExpr> {
        self.return_expr
    }

    /// Each name is bound once.
    #[verifier::type_invariant]
    closed spec fn names_unique(&self) -> bool {
        forall|i: int, j: int|
            0 <= i < j < self.vars@.len() ==> #[trigger] self.vars@[i].0@ != #[trigger] self.vars@[j].0@
    }

    /// A document with no variables and nothing returned.
    pub fn empty() -> (p: Self)
        ensures
            p.var_count() == 0,
            p.returned() is None,
            forall|name: Seq<char>| #[trigger] p.var_init(name) is None,
    {
        RsonParser { vars: Vec::new(), return_expr: None }
    }

    /// Reads a document from its text: the statements syn reads from it, as
    /// [`RsonParser::new`] reads them; a text that is no sequence of statements
    /// is refused with syn's message.
    pub fn from_str(input: &str) -> (r: RsonDeResult<Self>)
        ensures
            match block_statements(input@) {
                Some(s) => r matches Ok(p) && p.returned() == document_return(s) && (forall|name: Seq<char>|
                    #[trigger] p.var_init(name) == document_var(s, name)),
                None => r matches Err(e) && e.kind() == DeErrorKind::Syn,
            },
    {
        match parse_statements(input) {
            Ok(statements) => Self::new(statements),
            Err(message) => Err(RsonDeError::Syn(message)),
        }
    }

    /// Reads a document: the expression it returns, and for each variable the
    /// initializer of its last `let`.
    pub fn new(statements: Vec<DocStmt>) -> (r: RsonDeResult<Self>)
        ensures
            r matches Ok(p) && p.returned() == document_return(statements@) && (forall|name: Seq<char>|
                #[trigger] p.var_init(name) == document_var(statements@, name)),
    {
        let ghost stmts = statements@;
        let mut statements = statements;
        let mut return_expr: Option<DocExpr> = None;
        if let Some(stmt) = statements.pop() {
            proof {
                assert(stmt == stmts.last());
            }
            match stmt {
                DocStmt::Expr(current_expr, false) => {
                    return_expr = Some(current_expr);
                },
                other => {
                    statements.push(other);
                },
            }
        }
        proof {
            assert(statements@ =~= stmts.subrange(0, document_body_len(stmts) as int));
        }
        let ghost body = statements@;
        let mut vars: Vec<(String, DocExpr)> = Vec::new();
        while statements.len() > 0
            invariant
                body == stmts.subrange(0, document_body_len(stmts) as int),
                statements@ == body.subrange(0, statements@.len() as int),
                statements@.len() <= body.len(),
                forall|name: Seq<char>| #[trigger]
                    var_lookup_from(vars@, name, 0) == binding_in(
                        body,
                        name,
                        statements@.len() as nat,
                        body.len(),
                    ),
                forall|i: int, j: int| 0 <= i < j < vars@.len() ==> #[trigger] vars@[i].0@ != #[trigger] vars@[j].0@,
            decreases statements@.len(),
        {
            let ghost n = statements@.len();
            let stmt = statements.pop().unwrap();
            proof {
                assert(stmt == body[n - 1]);
                assert forall|name: Seq<char>| #[trigger]
                    binding_in(body, name, (n - 1) as nat, body.len()) == match binding_in(body, name, n as nat, body.len()) {
                        Some(e) => Some(e),
                        None => binds(body[n - 1], name),
                    } by {
                    if n < body.len() {
                        lemma_binding_extend(body, name, n as nat, body.len());
                    } else {
                        assert(binding_in(body, name, n as nat, body.len()) is None);
                        assert(binding_in(body, name, (n - 1) as nat, (n - 1) as nat) is None);
                    }
                }
            }
            match stmt {
                DocStmt::Local(Some(name), Some(init)) => {
                    if !has_var(&vars, &name) {
                        let ghost before = vars@;
                        vars.push((name, init));
                        proof {
                            assert forall|nm: Seq<char>| #[trigger] var_lookup_from(vars@, nm, 0) == match var_lookup_from(before, nm, 0) {
                                Some(e) => Some(e),
                                None => if name@ == nm { Some(init) } else { None },
                            } by {
                                lemma_lookup_push(before, (name, init), nm, 0);
                            }
                            assert forall|i: int, j: int| 0 <= i < j < vars@.len() implies #[trigger] vars@[i].0@ != #[trigger] vars@[j].0@ by {
                                if j == vars@.len() - 1 && vars@[i].0@ == name@ {
                                    lemma_index_found(before, name@, i as nat);
                                }
                            }
                        }
                    }
                },
                _ => {},
            }
            proof {
                assert(statements@ =~= body.subrange(0, statements@.len() as int));
            }
        }
        let p = RsonParser { vars, return_expr };
        proof {
            assert forall|name: Seq<char>| #[trigger] p.var_init(name) == document_var(stmts, name) by {
                lemma_binding_subrange(stmts, document_body_len(stmts), name, 0, body.len());
            }
        }
        Ok(p)
    }
}

/// Bindings among the first `k` statements are the same in the first `k` alone.
proof fn lemma_binding_subrange(stmts: Seq<DocStmt>, k: nat, name: Seq<char>, lo: nat, hi: nat)
    requires
        hi <= k <= stmts.len(),
    ensures
        binding_in(stmts.subrange(0, k as int), name, lo, hi) == binding_in(stmts, name, lo, hi),
    decreases hi,
{
    if hi > lo {
        assert(stmts.subrange(0, k as int)[hi - 1] == stmts[hi - 1]);
        lemma_binding_subrange(stmts, k, name, lo, (hi - 1) as nat);
    }
}

/// A name bound at some index is found by a lookup from the start.
proof fn lemma_index_found(vars: Seq<(String, DocExpr)>, name: Seq<char>, k: nat)
    requires
        k < vars.len(),
        vars[k as int].0@ == name,
    ensures
        var_lookup_from(vars, name, 0) is Some,
{
    lemma_index_found_from(vars, name, k, 0);
}

proof fn lemma_index_found_from(vars: Seq<(String, DocExpr)>, name: Seq<char>, k: nat, i: nat)
    requires
        i <= k < vars.len(),
        vars[k as int].0@ == name,
    ensures
        var_lookup_from(vars, name, i) is Some,
    decreases k - i,
{
    if i < k && vars[i as int].0@ != name {
        lemma_index_found_from(vars, name, k, i + 1);
    }
}


/// How many resolution steps a lookup may take before it is given up as endless.
pub const RESOLVE_FUEL: u64 = 1000000;

/// Whether an expression is the path `None`.
pub open spec fn is_none_path(e: DocExpr) -> bool {
    match e {
        DocExpr::Path(p) => p.spec_ident() == Some("None"@),
        _ => false,
    }
}

/// The expression of the first field of `fields` from index `i` that `member` names.
pub open spec fn find_field_from(fields: Seq<super::expr::DocFieldValue>, member: DocMember, i: nat) -> Option<DocExpr>
    decreases fields.len() - i,
{
    if i >= fields.len() {
        None
    } else if fields[i as int].member.same(&member) {
        Some(fields[i as int].expr)
    } else {
        find_field_from(fields, member, i + 1)
    }
}

/// The part of a struct or tuple literal that `member` names.
pub open spec fn select_member(base: DocExpr, member: DocMember) -> Result<DocExpr, DeErrorKind> {
    match base {
        DocExpr::Struct(_, fields, _) => match member {
            DocMember::Named(_) => match find_field_from(fields@, member, 0) {
                Some(e) => Ok(e),
                None => Err(DeErrorKind::Parse),
            },
            DocMember::Unnamed(_) => Err(DeErrorKind::Parse),
        },
        DocExpr::Tuple(elems) => match member {
            DocMember::Unnamed(i) => if i < elems@.len() { Ok(elems@[i as int]) } else { Err(DeErrorKind::Parse) },
            DocMember::Named(_) => Err(DeErrorKind::Parse),
        },
        _ => Err(DeErrorKind::Parse),
    }
}

/// An exec result seen as a spec result: the expression, or the error's kind.
pub open spec fn res_view(r: RsonDeResult<&DocExpr>) -> Result<DocExpr, DeErrorKind> {
    match r {
        Ok(e) => Ok(*e),
        Err(err) => Err(err.kind()),
    }
}

/// The names being resolved, which a variable may not come back to.
pub struct FindInitState {
    pub watched_names: Vec<String>,
}

impl Default for FindInitState {
    /// A state watching no name.
    fn default() -> (s: Self)
        ensures
            s.watched_names@.len() == 0,
    {
        FindInitState { watched_names: Vec::new() }
    }
}

/// Whether `v` holds a string with the text of `s`.
fn holds(v: &Vec<String>, s: &String) -> (r: bool)
    ensures
        r == str_views(v@).contains(s@),
{
    let mut i: usize = 0;
    while i < v.len()
        invariant
            i <= v@.len(),
            forall|j: int| 0 <= j < i ==> v@[j]@ != s@,
        decreases v@.len() - i,
    {
        if v[i] == *s {
            proof {
                assert(str_views(v@)[i as int] == s@);
            }
            return true;
        }
        i = i + 1;
    }
    proof {
        if str_views(v@).contains(s@) {
            let j = choose|j: int| 0 <= j < str_views(v@).len() && str_views(v@)[j] == s@;
            assert(v@[j]@ == s@);
        }
    }
    false
}

/// Whether `e` is the path `None`.
pub fn is_expr_path_none(e: &DocExpr) -> (r: bool)
    ensures
        r == is_none_path(*e),
{
    match e {
        DocExpr::Path(p) => match p.get_ident() {
            Some(ident) => {
                let none = owned("None");
                *ident == none
            },
            None => false,
        },
        _ => false,
    }
}

impl RsonParser {
    /// What a variable stands for, following `let a = b;` and `let a = b.c;` through
    /// other variables; `watched` are the names being resolved, which a variable may
    /// not come back to, unless `nested`. A path that names no variable stands for
    /// `source`. Running out of `fuel` is an error.
    pub open spec fn resolve_var(
        &self,
        source: DocExpr,
        path: DocPath,
        watched: Seq<Seq<char>>,
        nested: bool,
        fuel: nat,
    ) -> (Result<DocExpr, DeErrorKind>, Seq<Seq<char>>)
        decreases fuel, 0nat,
    {
        if fuel == 0 {
            (Err(DeErrorKind::Parse), watched)
        } else {
            match path.spec_ident() {
                None => (Ok(source), watched),
                Some(name) => match self.var_init(name) {
                    None => (Ok(source), watched),
                    Some(init) => if !nested && watched.contains(name) {
                        (Err(DeErrorKind::Parse), watched)
                    } else {
                        let w = if nested { watched } else { watched.push(name) };
                        match init {
                            DocExpr::Field(base, member) => self.resolve_field(*base, member, w, false, (fuel - 1) as nat),
                            DocExpr::Path(p) => self.resolve_var(source, p, w, false, (fuel - 1) as nat),
                            _ => (Ok(init), w),
                        }
                    },
                },
            }
        }
    }

    /// What `base.member` stands for.
    pub open spec fn resolve_field(
        &self,
        base: DocExpr,
        member: DocMember,
        watched: Seq<Seq<char>>,
        nested: bool,
        fuel: nat,
    ) -> (Result<DocExpr, DeErrorKind>, Seq<Seq<char>>)
        decreases fuel, 1nat,
    {
        if fuel == 0 {
            (Err(DeErrorKind::Parse), watched)
        } else {
            let first = match base {
                DocExpr::Field(b, m) => self.resolve_field(*b, m, watched, true, (fuel - 1) as nat),
                DocExpr::Path(p) => self.resolve_var(base, p, watched, nested, (fuel - 1) as nat),
                _ => (Err(DeErrorKind::Parse), watched),
            };
            match first.0 {
                Ok(b) => self.resolve_member(b, member, first.1, (fuel - 1) as nat),
                Err(k) => (Err(k), first.1),
            }
        }
    }

    /// Whether the variables a path leads through, one bound to the next, end in a
    /// name that no variable has, within `fuel` steps: such a path never comes to a
    /// value that a member could be taken of.
    pub open spec fn chain_unbound(&self, path: DocPath, fuel: nat) -> bool
        decreases fuel,
    {
        match path.spec_ident() {
            None => true,
            Some(name) => match self.var_init(name) {
                None => true,
                Some(DocExpr::Path(q)) => fuel > 0 && self.chain_unbound(q, (fuel - 1) as nat),
                Some(_) => false,
            },
        }
    }

    /// Follows `base` through variables and fields until it is a literal, then picks `member` of it.
    pub open spec fn resolve_member(
        &self,
        base: DocExpr,
        member: DocMember,
        watched: Seq<Seq<char>>,
        fuel: nat,
    ) -> (Result<DocExpr, DeErrorKind>, Seq<Seq<char>>)
        decreases fuel, 2nat,
    {
        if fuel == 0 {
            (Err(DeErrorKind::Parse), watched)
        } else {
            match base {
                DocExpr::Path(p) => if p.segments@.len() > 1 || is_none_path(base) {
                    (Ok(base), watched)
                } else if self.chain_unbound(p, self.var_count()) {
                    (Err(DeErrorKind::Parse), watched)
                } else {
                    let r = self.resolve_var(base, p, watched, true, (fuel - 1) as nat);
                    match r.0 {
                        Ok(e) => self.resolve_member(e, member, r.1, (fuel - 1) as nat),
                        Err(k) => (Err(k), r.1),
                    }
                },
                DocExpr::Field(b, m) => {
                    let r = self.resolve_field(*b, m, watched, true, (fuel - 1) as nat);
                    match r.0 {
                        Ok(e) => self.resolve_member(e, member, r.1, (fuel - 1) as nat),
                        Err(k) => (Err(k), r.1),
                    }
                },
                _ => (select_member(base, member), watched),
            }
        }
    }

    /// Whether the document has no variable and returns nothing.
    pub fn is_empty(&self) -> (r: bool)
        ensures
            r == (self.returned() is None && forall|name: Seq<char>| #[trigger] self.var_init(name) is None),
    {
        let r = self.vars.len() == 0 && self.return_expr.is_none();
        proof {
            if self.vars@.len() > 0 {
                assert(self.var_init(self.vars@[0].0@) is Some);
            }
        }
        r
    }

    /// The initializer of the variable `name`, as written.
    #[verifier::loop_isolation(false)]
    pub fn get_var_expr(&self, name: &str) -> (r: Option<&DocExpr>)
        ensures
            match r {
                Some(e) => self.var_init(name@) == Some(*e),
                None => self.var_init(name@) is None,
            },
    {
        let name = owned(name);
        let mut i: usize = 0;
        while i < self.vars.len()
            invariant
                i <= self.vars@.len(),
                self.var_init(name@) == var_lookup_from(self.vars@, name@, i as nat),
            decreases self.vars@.len() - i,
        {
            if self.vars[i].0 == name {
                proof {
                    assert(var_lookup_from(self.vars@, name@, i as nat) == Some(self.vars@[i as int].1));
                }
                return Some(&self.vars[i].1);
            }
            i = i + 1;
        }
        None
    }

    /// The expression the document returns.
    pub fn return_expr(&self) -> (r: Option<&DocExpr>)
        ensures
            match r {
                Some(e) => self.returned() == Some(*e),
                None => self.returned() is None,
            },
    {
        match &self.return_expr {
            Some(e) => Some(e),
            None => None,
        }
    }

    /// Whether the variables `path` leads through end in a name that no variable has.
    fn chain_ends_unbound(&self, path: &DocPath) -> (r: bool)
        ensures
            r == self.chain_unbound(*path, self.var_count()),
    {
        let mut p = path;
        let mut fuel: usize = self.vars.len();
        loop
            invariant
                fuel <= self.var_count(),
                self.chain_unbound(*path, self.var_count()) == self.chain_unbound(*p, fuel as nat),
            decreases fuel,
        {
            let name = match p.get_ident() {
                Some(ident) => ident,
                None => return true,
            };
            match self.get_var_expr(name.as_str()) {
                None => return true,
                Some(DocExpr::Path(q)) => {
                    if fuel == 0 {
                        return false;
                    }
                    p = q;
                    fuel = fuel - 1;
                },
                Some(_) => return false,
            }
        }
    }

    fn find_var_init_expr_inner<'a>(
        &'a self,
        source: &'a DocExpr,
        path: &'a DocPath,
        state: &mut FindInitState,
        nested: bool,
        fuel: u64,
    ) -> (r: RsonDeResult<&'a DocExpr>)
        ensures
            (res_view(r), str_views(final(state).watched_names@)) == self.resolve_var(
                *source,
                *path,
                str_views(old(state).watched_names@),
                nested,
                fuel as nat,
            ),
        decreases fuel, 0nat,
    {
        if fuel == 0 {
            return Err(RsonDeError::Parse(owned("variable resolution does not end")));
        }
        let name = match path.get_ident() {
            Some(ident) => ident,
            None => return Ok(source),
        };
        let init = match self.get_var_expr(name.as_str()) {
            Some(init) => init,
            None => return Ok(source),
        };
        if !nested {
            if holds(&state.watched_names, name) {
                let mut message = owned("Recursive var `");
                message.append(name.as_str());
                message.append("`");
                return Err(RsonDeError::Parse(message));
            }
            let ghost before = state.watched_names@;
            let n = name.clone();
            state.watched_names.push(n);
            proof {
                lemma_str_views_push(before, n);
            }
        }
        match init {
            DocExpr::Field(base, member) => self.find_field_init_expr_inner(base, member, state, false, fuel - 1),
            DocExpr::Path(p) => self.find_var_init_expr_inner(source, p, state, false, fuel - 1),
            _ => Ok(init),
        }
    }

    fn find_field_init_expr_inner<'a>(
        &'a self,
        base: &'a DocExpr,
        member: &DocMember,
        state: &mut FindInitState,
        nested: bool,
        fuel: u64,
    ) -> (r: RsonDeResult<&'a DocExpr>)
        ensures
            (res_view(r), str_views(final(state).watched_names@)) == self.resolve_field(
                *base,
                *member,
                str_views(old(state).watched_names@),
                nested,
                fuel as nat,
            ),
        decreases fuel, 1nat,
    {
        if fuel == 0 {
            return Err(RsonDeError::Parse(owned("variable resolution does not end")));
        }
        let base_init = match base {
            DocExpr::Field(b, m) => self.find_field_init_expr_inner(b, m, state, true, fuel - 1),
            DocExpr::Path(p) => self.find_var_init_expr_inner(base, p, state, nested, fuel - 1),
            _ => Err(RsonDeError::Parse(owned("invalid base expression for a member"))),
        };
        match base_init {
            Ok(b) => self.find_member(b, member, state, fuel - 1),
            Err(e) => Err(e),
        }
    }

    fn find_member<'a>(
        &'a self,
        base: &'a DocExpr,
        member: &DocMember,
        state: &mut FindInitState,
        fuel: u64,
    ) -> (r: RsonDeResult<&'a DocExpr>)
        ensures
            (res_view(r), str_views(final(state).watched_names@)) == self.resolve_member(
                *base,
                *member,
                str_views(old(state).watched_names@),
                fuel as nat,
            ),
        decreases fuel, 2nat,
    {
        if fuel == 0 {
            return Err(RsonDeError::Parse(owned("variable resolution does not end")));
        }
        match base {
            DocExpr::Path(p) => {
                if p.segments.len() > 1 || is_expr_path_none(base) {
                    return Ok(base);
                }
                if self.chain_ends_unbound(p) {
                    return Err(RsonDeError::Parse(owned("a member of a name that no variable binds")));
                }
                match self.find_var_init_expr_inner(base, p, state, true, fuel - 1) {
                    Ok(e) => self.find_member(e, member, state, fuel - 1),
                    Err(err) => Err(err),
                }
            },
            DocExpr::Field(b, m) => match self.find_field_init_expr_inner(b, m, state, true, fuel - 1) {
                Ok(e) => self.find_member(e, member, state, fuel - 1),
                Err(err) => Err(err),
            },
            _ => select_member_expr(base, member),
        }
    }

    /// What `base.member` stands for, following variables.
    pub fn find_field_init_expr<'a>(&'a self, base: &'a DocExpr, member: &DocMember) -> (r: RsonDeResult<&'a DocExpr>)
        ensures
            res_view(r) == self.resolve_field(*base, *member, Seq::empty(), false, RESOLVE_FUEL as nat).0,
    {
        let mut state = FindInitState::default();
        proof {
            assert(str_views(state.watched_names@) =~= Seq::<Seq<char>>::empty());
        }
        self.find_field_init_expr_inner(base, member, &mut state, false, RESOLVE_FUEL)
    }

    /// What the path `path` (written as `source`) stands for, following variables.
    pub fn find_var_init_expr<'a>(&'a self, source: &'a DocExpr, path: &'a DocPath) -> (r: RsonDeResult<&'a DocExpr>)
        ensures
            res_view(r) == self.resolve_var(*source, *path, Seq::empty(), false, RESOLVE_FUEL as nat).0,
    {
        let mut state = FindInitState::default();
        proof {
            assert(str_views(state.watched_names@) =~= Seq::<Seq<char>>::empty());
        }
        self.find_var_init_expr_inner(source, path, &mut state, false, RESOLVE_FUEL)
    }
}

/// The part of a struct or tuple literal that `member` names.
#[verifier::loop_isolation(false)]
fn select_member_expr<'a>(base: &'a DocExpr, member: &DocMember) -> (r: RsonDeResult<&'a DocExpr>)
    ensures
        res_view(r) == select_member(*base, *member),
{
    match base {
        DocExpr::Struct(_, fields, _) => {
            match member {
                DocMember::Named(_) => {},
                DocMember::Unnamed(_) => return Err(RsonDeError::Parse(owned("invalid member for a struct"))),
            }
            let mut i: usize = 0;
            while i < fields.len()
                invariant
                    i <= fields@.len(),
                    find_field_from(fields@, *member, 0) == find_field_from(fields@, *member, i as nat),
                decreases fields@.len() - i,
            {
                if fields[i].member.same_as(member) {
                    proof {
                        assert(find_field_from(fields@, *member, i as nat) == Some(fields@[i as int].expr));
                    }
                    return Ok(&fields[i].expr);
                }
                i = i + 1;
            }
            let mut message = owned("Field `");
            if let DocMember::Named(ident) = member {
                message.append(ident.as_str());
            }
            message.append("` not found");
            Err(RsonDeError::Parse(message))
        },
        DocExpr::Tuple(elems) => match member {
            DocMember::Unnamed(index) => {
                let index = *index as usize;
                if index < elems.len() {
                    Ok(&elems[index])
                } else {
                    Err(RsonDeError::Parse(owned("index not found")))
                }
            },
            DocMember::Named(_) => Err(RsonDeError::Parse(owned("invalid member for a tuple"))),
        },
        _ => Err(RsonDeError::Parse(owned("invalid base initialization for a member"))),
    }
}


/// The arguments of a call `name(args..)` with `count` arguments; an empty `name`
/// accepts any single-segment or longer path.
pub open spec fn call_args(e: DocExpr, name: Seq<char>, count: nat) -> Option<Seq<DocExpr>> {
    match e {
        DocExpr::Call(func, args) => match *func {
            DocExpr::Path(p) => if (name.len() == 0 || p.spec_ident() == Some(name)) && args@.len() == count {
                Some(args@)
            } else {
                None
            },
            _ => None,
        },
        _ => None,
    }
}

/// The expressions a vector of references points to.
pub open spec fn deref_all(v: Seq<&DocExpr>) -> Seq<DocExpr> {
    v.map_values(|x: &DocExpr| *x)
}

/// The arguments of `expr` when it calls `name` with `args_count` arguments.
pub fn expected_func_call_args<'a>(expr: &'a DocExpr, name: &str, args_count: usize) -> (r: Option<Vec<&'a DocExpr>>)
    ensures
        match r {
            Some(v) => call_args(*expr, name@, args_count as nat) == Some(deref_all(v@)),
            None => call_args(*expr, name@, args_count as nat) is None,
        },
{
    if let DocExpr::Call(func, args) = expr {
        if let DocExpr::Path(p) = &**func {
            let named = if name.is_empty() {
                true
            } else {
                match p.get_ident() {
                    Some(ident) => *ident == owned(name),
                    None => false,
                }
            };
            if named && args.len() == args_count {
                let mut v: Vec<&'a DocExpr> = Vec::new();
                let mut i: usize = 0;
                while i < args.len()
                    invariant
                        i <= args@.len(),
                        deref_all(v@) =~= args@.subrange(0, i as int),
                    decreases args@.len() - i,
                {
                    let ghost before = v@;
                    v.push(&args[i]);
                    proof {
                        assert(deref_all(v@) =~= deref_all(before).push(args@[i as int]));
                        assert(args@.subrange(0, i + 1) =~= args@.subrange(0, i as int).push(args@[i as int]));
                    }
                    i = i + 1;
                }
                proof {
                    assert(args@.subrange(0, args@.len() as int) =~= args@);
                }
                return Some(v);
            }
        }
    }
    None
}

/// The state of turning a `map!` macro's tokens into a tuple of pairs: the text
/// so far, whether a `:` would start a value, and the pending text.
pub struct MapTuplesState {
    pub out: Seq<char>,
    pub separate: bool,
    pub value: Seq<char>,
}

/// The text of a token.
pub open spec fn token_text(t: Token) -> Seq<char> {
    match t {
        Token::Punct(c, _) => seq![c],
        Token::Other(s) => s@,
    }
}

/// One token of a `map!` macro: `key: value,` pairs become `(key,value),`, and a
/// `::` path separator stays in the pending text.
pub open spec fn map_tuples_step(st: MapTuplesState, t: Token) -> MapTuplesState {
    match t {
        Token::Punct(':', true) => MapTuplesState { out: st.out, separate: false, value: st.value + token_text(t) },
        Token::Punct(':', false) => if st.separate {
            MapTuplesState { out: st.out + "("@ + st.value + ","@, separate: st.separate, value: Seq::empty() }
        } else {
            MapTuplesState { out: st.out, separate: true, value: st.value + token_text(t) }
        },
        Token::Punct(',', false) => MapTuplesState {
            out: st.out + st.value + ")"@ + ","@,
            separate: true,
            value: Seq::empty(),
        },
        _ => MapTuplesState { out: st.out, separate: st.separate, value: st.value + token_text(t) },
    }
}

/// The state after the first `n` tokens.
pub open spec fn map_tuples_fold(tokens: Seq<Token>, n: nat) -> MapTuplesState
    decreases n,
{
    if n == 0 || n > tokens.len() {
        MapTuplesState { out: "("@, separate: true, value: Seq::empty() }
    } else {
        map_tuples_step(map_tuples_fold(tokens, (n - 1) as nat), tokens[n - 1])
    }
}

/// Whether a text ends with `),`.
pub open spec fn ends_with_pair(s: Seq<char>) -> bool {
    s.len() >= 2 && s[s.len() - 2] == ')' && s[s.len() - 1] == ','
}

/// The tuple-of-pairs text for the tokens of `map! { k: v, .. }`.
pub open spec fn map_tuples_text(tokens: Seq<Token>) -> Seq<char> {
    let st = map_tuples_fold(tokens, tokens.len());
    (if st.value.len() == 0 && ends_with_pair(st.out) {
        st.out.drop_last()
    } else {
        st.out + st.value + ")"@
    }) + ")"@
}

/// Appends the text of a token.
fn push_token_text(value: &mut String, t: &Token)
    ensures
        final(value)@ == old(value)@ + token_text(*t),
{
    match t {
        Token::Punct(c, _) => {
            push_char(value, *c);
            proof {
                assert(seq![*c] =~= token_text(*t));
            }
        },
        Token::Other(s) => value.append(s.as_str()),
    }
}

/// Turns the tokens of `map! { k: v, .. }` into the text of a tuple of pairs `((k,v),..)`.
pub fn make_tuples_from_map_macro(tokens: &Vec<Token>) -> (text: String)
    ensures
        text@ == map_tuples_text(tokens@),
{
    let mut map_tuples = owned("(");
    let mut separate_value = true;
    let mut value = String::new();
    let mut i: usize = 0;
    while i < tokens.len()
        invariant
            i <= tokens@.len(),
            map_tuples_fold(tokens@, i as nat) == (MapTuplesState {
                out: map_tuples@,
                separate: separate_value,
                value: value@,
            }),
        decreases tokens@.len() - i,
    {
        let token = &tokens[i];
        match token {
            Token::Punct(':', true) => {
                separate_value = false;
                push_token_text(&mut value, token);
            },
            Token::Punct(':', false) => {
                if separate_value {
                    map_tuples.append("(");
                    map_tuples.append(value.as_str());
                    map_tuples.append(",");
                    value = String::new();
                } else {
                    separate_value = true;
                    push_token_text(&mut value, token);
                }
            },
            Token::Punct(',', false) => {
                map_tuples.append(value.as_str());
                map_tuples.append(")");
                map_tuples.append(",");
                value = String::new();
                separate_value = true;
            },
            _ => push_token_text(&mut value, token),
        }
        i = i + 1;
    }
    let n = map_tuples.as_str().unicode_len();
    let ends = n >= 2 && map_tuples.as_str().get_char(n - 2) == ')' && map_tuples.as_str().get_char(n - 1) == ',';
    let mut result = if value.as_str().is_empty() && ends {
        owned(map_tuples.as_str().substring_char(0, n - 1))
    } else {
        map_tuples.append(value.as_str());
        map_tuples.append(")");
        map_tuples
    };
    result.append(")");
    result
}


/// The tokens of `map! { k1: v1, k2: v2, .. }` for pairs written as single tokens,
/// each pair followed by a comma.
pub open spec fn map_entry_tokens(pairs: Seq<(String, String)>, n: nat) -> Seq<Token>
    decreases n,
{
    if n == 0 || n > pairs.len() {
        Seq::empty()
    } else {
        map_entry_tokens(pairs, (n - 1) as nat) + seq![
            Token::Other(pairs[n - 1].0),
            Token::Punct(':', false),
            Token::Other(pairs[n - 1].1),
            Token::Punct(',', false),
        ]
    }
}

/// `(k,v),` for each of the first `n` pairs.
pub open spec fn pairs_text(pairs: Seq<(String, String)>, n: nat) -> Seq<char>
    decreases n,
{
    if n == 0 || n > pairs.len() {
        Seq::empty()
    } else {
        pairs_text(pairs, (n - 1) as nat) + "("@ + pairs[n - 1].0@ + ","@ + pairs[n - 1].1@ + ")"@ + ","@
    }
}

proof fn lemma_map_entry_tokens(pairs: Seq<(String, String)>, n: nat, k: nat)
    requires
        k < n <= pairs.len(),
    ensures
        map_entry_tokens(pairs, n).len() == 4 * n,
        map_entry_tokens(pairs, n)[(4 * k) as int] == Token::Other(pairs[k as int].0),
        map_entry_tokens(pairs, n)[(4 * k + 1) as int] == Token::Punct(':', false),
        map_entry_tokens(pairs, n)[(4 * k + 2) as int] == Token::Other(pairs[k as int].1),
        map_entry_tokens(pairs, n)[(4 * k + 3) as int] == Token::Punct(',', false),
    decreases n,
{
    lemma_map_entry_tokens_len(pairs, (n - 1) as nat);
    if k < n - 1 {
        lemma_map_entry_tokens(pairs, (n - 1) as nat, k);
    }
}

proof fn lemma_map_entry_tokens_len(pairs: Seq<(String, String)>, n: nat)
    requires
        n <= pairs.len(),
    ensures
        map_entry_tokens(pairs, n).len() == 4 * n,
    decreases n,
{
    if n > 0 {
        lemma_map_entry_tokens_len(pairs, (n - 1) as nat);
    }
}

proof fn lemma_map_fold_pairs(pairs: Seq<(String, String)>, n: nat, k: nat)
    requires
        k <= n <= pairs.len(),
    ensures
        map_tuples_fold(map_entry_tokens(pairs, n), 4 * k) == (MapTuplesState {
            out: "("@ + pairs_text(pairs, k),
            separate: true,
            value: Seq::empty(),
        }),
    decreases k,
{
    let t = map_entry_tokens(pairs, n);
    lemma_map_entry_tokens_len(pairs, n);
    if k == 0 {
        assert("("@ + pairs_text(pairs, 0) =~= "("@);
    } else {
        let j = (k - 1) as nat;
        lemma_map_fold_pairs(pairs, n, j);
        lemma_map_entry_tokens(pairs, n, j);
        let s0 = map_tuples_fold(t, 4 * j);
        let s1 = map_tuples_fold(t, 4 * j + 1);
        let s2 = map_tuples_fold(t, 4 * j + 2);
        let s3 = map_tuples_fold(t, 4 * j + 3);
        let key = pairs[j as int].0@;
        let val = pairs[j as int].1@;
        assert(s1 == map_tuples_step(s0, t[(4 * j) as int]));
        assert(s1.value =~= key);
        assert(s2 == map_tuples_step(s1, t[(4 * j + 1) as int]));
        assert(s2.out =~= "("@ + pairs_text(pairs, j) + "("@ + key + ","@);
        assert(s3 == map_tuples_step(s2, t[(4 * j + 2) as int]));
        assert(s3.value =~= val);
        assert(map_tuples_fold(t, 4 * k) == map_tuples_step(s3, t[(4 * j + 3) as int]));
        assert("("@ + pairs_text(pairs, k) =~= "("@ + pairs_text(pairs, j) + "("@ + key + ","@ + val + ")"@ + ","@);
    }
}

/// A `map!` macro whose keys and values are single tokens, each pair followed by
/// a comma, becomes the tuple of its pairs: `((k1,v1),(k2,v2),..)`.
pub proof fn lemma_map_macro_pairs(pairs: Seq<(String, String)>)
    requires
        pairs.len() > 0,
    ensures
        map_tuples_text(map_entry_tokens(pairs, pairs.len())) == "("@ + pairs_text(pairs, pairs.len()).drop_last()
            + ")"@,
{
    let n = pairs.len();
    let t = map_entry_tokens(pairs, n);
    lemma_map_entry_tokens_len(pairs, n);
    lemma_map_fold_pairs(pairs, n, n);
    let st = map_tuples_fold(t, t.len());
    let p = pairs_text(pairs, n);
    assert(p.len() >= 2 && p[p.len() - 2] == ')' && p[p.len() - 1] == ',') by {
        reveal_strlit(")");
        reveal_strlit(",");
        let q = pairs_text(pairs, (n - 1) as nat) + "("@ + pairs[n - 1].0@ + ","@ + pairs[n - 1].1@;
        assert(p =~= q + ")"@ + ","@);
    }
    assert(st.out =~= "("@ + p);
    assert(ends_with_pair(st.out));
    assert(st.out.drop_last() =~= "("@ + p.drop_last());
}

/// Whether a token of a `map!` macro is no separator: anything but a `:` or a `,`.
pub open spec fn plain_token(t: Token) -> bool {
    match t {
        Token::Punct(c, _) => c != ':' && c != ',',
        Token::Other(_) => true,
    }
}

/// The text of a run of tokens, written one after the other: a punctuation
/// character as itself, any other token by its text.
pub open spec fn tokens_text(ts: Seq<Token>) -> Seq<char>
    decreases ts.len(),
{
    if ts.len() == 0 {
        Seq::empty()
    } else {
        tokens_text(ts.drop_last()) + match ts.last() {
            Token::Punct(c, _) => seq![c],
            Token::Other(s) => s@,
        }
    }
}

/// The tokens of `map! { k1: v1, k2: v2, .. }` where each key and value is a run of
/// tokens, each pair followed by a comma.
pub open spec fn pair_tokens(pairs: Seq<(Seq<Token>, Seq<Token>)>, n: nat) -> Seq<Token>
    decreases n,
{
    if n == 0 || n > pairs.len() {
        Seq::empty()
    } else {
        pair_tokens(pairs, (n - 1) as nat) + pairs[n - 1].0 + seq![Token::Punct(':', false)] + pairs[n - 1].1
            + seq![Token::Punct(',', false)]
    }
}

/// `(key,value),` for each of the first `n` pairs, keys and values by their text.
pub open spec fn pair_list_text(pairs: Seq<(Seq<Token>, Seq<Token>)>, n: nat) -> Seq<char>
    decreases n,
{
    if n == 0 || n > pairs.len() {
        Seq::empty()
    } else {
        pair_list_text(pairs, (n - 1) as nat) + "("@ + tokens_text(pairs[n - 1].0) + ","@ + tokens_text(
            pairs[n - 1].1,
        ) + ")"@ + ","@
    }
}

proof fn lemma_fold_prefix(t: Seq<Token>, u: Seq<Token>, n: nat)
    requires
        n <= t.len(),
        n <= u.len(),
        t.subrange(0, n as int) == u.subrange(0, n as int),
    ensures
        map_tuples_fold(t, n) == map_tuples_fold(u, n),
    decreases n,
{
    if n > 0 {
        assert(t[n - 1] == t.subrange(0, n as int)[n - 1]);
        assert(u[n - 1] == u.subrange(0, n as int)[n - 1]);
        assert(t.subrange(0, n - 1) =~= t.subrange(0, n as int).subrange(0, n - 1));
        assert(u.subrange(0, n - 1) =~= u.subrange(0, n as int).subrange(0, n - 1));
        lemma_fold_prefix(t, u, (n - 1) as nat);
    }
}

proof fn lemma_fold_plain_run(t: Seq<Token>, s: nat, k: nat)
    requires
        s + k <= t.len(),
        forall|i: int| s <= i < s + k ==> #[trigger] plain_token(t[i]),
    ensures
        map_tuples_fold(t, s + k) == (MapTuplesState {
            out: map_tuples_fold(t, s).out,
            separate: map_tuples_fold(t, s).separate,
            value: map_tuples_fold(t, s).value + tokens_text(t.subrange(s as int, (s + k) as int)),
        }),
    decreases k,
{
    if k == 0 {
        assert(map_tuples_fold(t, s).value + tokens_text(t.subrange(s as int, s as int)) =~= map_tuples_fold(
            t,
            s,
        ).value);
    } else {
        lemma_fold_plain_run(t, s, (k - 1) as nat);
        let run = t.subrange(s as int, (s + k) as int);
        assert(run.drop_last() =~= t.subrange(s as int, s + k - 1));
        assert(run.last() == t[s + k - 1]);
        assert(plain_token(t[s + k - 1]));
        let prev = map_tuples_fold(t, (s + k - 1) as nat);
        assert(map_tuples_fold(t, s + k) == map_tuples_step(prev, t[s + k - 1]));
        match t[s + k - 1] {
            Token::Punct(c, _) => {
                assert(token_text(t[s + k - 1]) == seq![c]);
            },
            Token::Other(x) => {},
        }
        assert(map_tuples_fold(t, s).value + tokens_text(run) =~= prev.value + token_text(t[s + k - 1]));
    }
}

proof fn lemma_pair_tokens_len(pairs: Seq<(Seq<Token>, Seq<Token>)>, n: nat)
    requires
        n <= pairs.len(),
    ensures
        pair_tokens(pairs, n).len() >= n,
    decreases n,
{
    if n > 0 {
        lemma_pair_tokens_len(pairs, (n - 1) as nat);
    }
}

proof fn lemma_fold_pairs(pairs: Seq<(Seq<Token>, Seq<Token>)>, k: nat)
    requires
        k <= pairs.len(),
        forall|i: int, j: int|
            0 <= i < pairs.len() && 0 <= j < pairs[i].0.len() ==> #[trigger] plain_token(pairs[i].0[j]),
        forall|i: int, j: int|
            0 <= i < pairs.len() && 0 <= j < pairs[i].1.len() ==> #[trigger] plain_token(pairs[i].1[j]),
    ensures
        map_tuples_fold(pair_tokens(pairs, k), pair_tokens(pairs, k).len()) == (MapTuplesState {
            out: "("@ + pair_list_text(pairs, k),
            separate: true,
            value: Seq::empty(),
        }),
    decreases k,
{
    if k == 0 {
        assert("("@ + pair_list_text(pairs, 0) =~= "("@);
    } else {
        let j = (k - 1) as nat;
        lemma_fold_pairs(pairs, j);
        let p = pair_tokens(pairs, j);
        let key = pairs[j as int].0;
        let val = pairs[j as int].1;
        let t = pair_tokens(pairs, k);
        assert(t == p + key + seq![Token::Punct(':', false)] + val + seq![Token::Punct(',', false)]);
        let b = p.len();
        assert(t.subrange(0, b as int) =~= p.subrange(0, b as int));
        lemma_fold_prefix(t, p, b);
        let s0 = map_tuples_fold(t, b);
        assert forall|i: int| b <= i < b + key.len() implies #[trigger] plain_token(t[i]) by {
            assert(t[i] == key[i - b]);
        }
        lemma_fold_plain_run(t, b, key.len());
        assert(t.subrange(b as int, (b + key.len()) as int) =~= key);
        let c1 = b + key.len();
        let s1 = map_tuples_fold(t, c1);
        assert(s1.value =~= tokens_text(key));
        assert(t[c1 as int] == Token::Punct(':', false));
        let s2 = map_tuples_fold(t, c1 + 1);
        assert(s2 == map_tuples_step(s1, t[c1 as int]));
        assert(s2.out == "("@ + pair_list_text(pairs, j) + "("@ + tokens_text(key) + ","@);
        assert(s2.value == Seq::<char>::empty());
        assert forall|i: int| c1 + 1 <= i < c1 + 1 + val.len() implies #[trigger] plain_token(t[i]) by {
            assert(t[i] == val[i - c1 - 1]);
        }
        lemma_fold_plain_run(t, c1 + 1, val.len());
        assert(t.subrange((c1 + 1) as int, (c1 + 1 + val.len()) as int) =~= val);
        let c2 = c1 + 1 + val.len();
        let s3 = map_tuples_fold(t, c2);
        assert(s3.value =~= tokens_text(val));
        assert(t[c2 as int] == Token::Punct(',', false));
        assert(t.len() == c2 + 1);
        assert(map_tuples_fold(t, c2 + 1) == map_tuples_step(s3, t[c2 as int]));
        assert("("@ + pair_list_text(pairs, k) =~= "("@ + pair_list_text(pairs, j) + "("@ + tokens_text(key) + ","@
            + tokens_text(val) + ")"@ + ","@);
    }
}

/// A `map!` macro whose keys and values are runs of tokens other than `:` and `,`
/// (literals, names, paths, a minus sign, any punctuation), each pair followed by
/// a comma, becomes the tuple of its pairs, every token keeping its text:
/// `((k1,v1),(k2,v2),..)`.
pub proof fn lemma_map_macro_token_pairs(pairs: Seq<(Seq<Token>, Seq<Token>)>)
    requires
        pairs.len() > 0,
        forall|i: int, j: int|
            0 <= i < pairs.len() && 0 <= j < pairs[i].0.len() ==> #[trigger] plain_token(pairs[i].0[j]),
        forall|i: int, j: int|
            0 <= i < pairs.len() && 0 <= j < pairs[i].1.len() ==> #[trigger] plain_token(pairs[i].1[j]),
    ensures
        map_tuples_text(pair_tokens(pairs, pairs.len())) == "("@ + pair_list_text(pairs, pairs.len()).drop_last()
            + ")"@,
{
    let n = pairs.len();
    let t = pair_tokens(pairs, n);
    lemma_fold_pairs(pairs, n);
    let st = map_tuples_fold(t, t.len());
    let l = pair_list_text(pairs, n);
    assert(l.len() >= 2 && l[l.len() - 2] == ')' && l[l.len() - 1] == ',') by {
        reveal_strlit(")");
        reveal_strlit(",");
        let q = pair_list_text(pairs, (n - 1) as nat) + "("@ + tokens_text(pairs[n - 1].0) + ","@ + tokens_text(
            pairs[n - 1].1,
        );
        assert(l =~= q + ")"@ + ","@);
    }
    assert(st.out =~= "("@ + l);
    assert(ends_with_pair(st.out));
    assert(st.out.drop_last() =~= "("@ + l.drop_last());
}
} // verus!
