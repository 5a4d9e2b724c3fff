//! The compiler session: the registry of namespaces, the namespace that is
//! current, and the lowering of a sequence of top-level forms.
use crate::error::Error;
use crate::expression::{BackendValue, Expression};
use crate::namespace::{is_valid_name, valid_name, Namespace};
use crate::number::Number;
use inkwell::builder::Builder;
use inkwell::context::Context;
use inkwell::values::FunctionValue;
use vstd::prelude::*;

verus! {

/// One compilation run.
///
/// The namespaces stand in an arena, in the order of their creation, and are
/// never removed or moved. A namespace is identified by its name and, where it
/// has one, by its source path: both keys lead to the same place in the
/// arena, so whatever is generated through one is found through the other.
pub struct Compiler<'ctx> {
    pub context: &'ctx Context,
    pub builder: Builder<'ctx>,
    namespaces: Vec<Namespace<'ctx>>,
    current: Option<usize>,
}

impl<'ctx> Compiler<'ctx> {
    /// The namespaces, in the order of their creation.
    pub closed spec fn entries(&self) -> Seq<Namespace<'ctx>> {
        self.namespaces@
    }

    /// The LLVM context that the session works in.
    pub closed spec fn session_context(&self) -> &'ctx Context {
        self.context
    }

    /// The builder that the session appends instructions with.
    pub closed spec fn session_builder(&self) -> Builder<'ctx> {
        self.builder
    }

    /// The position of the current namespace, if one is selected.
    pub closed spec fn current_index(&self) -> Option<int> {
        match self.current {
            Some(c) => Some(c as int),
            None => None,
        }
    }

    /// The invariant of a session: every namespace is well formed, no key
    /// identifies two namespaces, and the selection, if any, is on a
    /// namespace.
    pub open spec fn wf(&self) -> bool {
        &&& forall|i: int| 0 <= i < self.entries().len() ==> (#[trigger] self.entries()[i]).wf()
        &&& forall|i: int, j: int, key: Seq<char>|
            0 <= i < self.entries().len() && 0 <= j < self.entries().len()
                && #[trigger] self.entries()[i]@.has_key(key)
                && #[trigger] self.entries()[j]@.has_key(key) ==> i == j
        &&& self.current_index() matches Some(c) ==> 0 <= c < self.entries().len()
    }

    /// Whether some namespace has the key.
    pub open spec fn knows(&self, key: Seq<char>) -> bool {
        exists|i: int| 0 <= i < self.entries().len() && #[trigger] self.entries()[i]@.has_key(key)
    }

    /// The position of the namespace that `key` identifies, by name or by
    /// source path.
    pub open spec fn resolve(&self, key: Seq<char>) -> Option<int> {
        if self.knows(key) {
            Some(
                choose|i: int|
                    0 <= i < self.entries().len() && #[trigger] self.entries()[i]@.has_key(key),
            )
        } else {
            None
        }
    }

    /// What lowering a node may do to a session: `after` has the namespaces
    /// of `self`, under the same keys and with the same selection, and only
    /// the current namespace may differ.
    pub open spec fn confines(&self, after: &Compiler<'ctx>) -> bool {
        &&& after.entries().len() == self.entries().len()
        &&& after.current_index() == self.current_index()
        &&& after.session_context() == self.session_context()
        &&& forall|i: int|
            0 <= i < self.entries().len() ==> (#[trigger] after.entries()[i])@.name
                == self.entries()[i]@.name && after.entries()[i]@.source_path
                == self.entries()[i]@.source_path
        &&& forall|i: int|
            0 <= i < self.entries().len() && Some(i) != self.current_index()
                ==> #[trigger] after.entries()[i] == self.entries()[i]
    }

    /// Whether a namespace is selected.
    pub open spec fn has_current(&self) -> bool {
        self.current_index() is Some
    }

    /// A session over `context`, with no namespace and none selected.
    pub fn new(context: &'ctx Context) -> (r: Compiler<'ctx>)
        ensures
            r.wf(),
            r.session_context() == context,
            r.entries().len() == 0,
            !r.has_current(),
    {
        Compiler {
            builder: context.create_builder(),
            context: context,
            namespaces: Vec::new(),
            current: None,
        }
    }

    /// The LLVM context that the session works in.
    pub fn context(&self) -> (r: &'ctx Context)
        ensures
            r == self.session_context(),
    {
        self.context
    }

    /// The builder that the session appends instructions with.
    pub fn builder(&self) -> (r: &Builder<'ctx>)
        ensures
            *r == self.session_builder(),
    {
        &self.builder
    }

    /// Whether a namespace is selected.
    pub fn has_current_ns(&self) -> (r: bool)
        ensures
            r == self.has_current(),
    {
        self.current.is_some()
    }

    /// How many namespaces the session holds.
    pub fn namespace_count(&self) -> (r: usize)
        ensures
            r == self.entries().len(),
    {
        self.namespaces.len()
    }

    /// The position of the namespace that `key` identifies.
    pub fn resolve_key(&self, key: &String) -> (r: Option<usize>)
        requires
            self.wf(),
        ensures
            match r {
                Some(i) => self.resolve(key@) == Some(i as int) && i < self.entries().len()
                    && self.entries()[i as int]@.has_key(key@),
                None => self.resolve(key@) is None,
            },
    {
        let mut i: usize = 0;
        while i < self.namespaces.len()
            invariant
                self.wf(),
                i <= self.namespaces.len(),
                forall|j: int| 0 <= j < i ==> !(#[trigger] self.entries()[j]@.has_key(key@)),
            decreases self.namespaces.len() - i,
        {
            if self.namespaces[i].has_key(key) {
                proof {
                    lemma_key_resolves(*self, key@, i as int);
                }
                return Some(i);
            }
            i = i + 1;
        }
        None
    }

    /// Registers a new, empty namespace under `ns_name` and, where one is
    /// given, under `source_file`.
    ///
    /// A name that holds `/` is refused. So is a name or a source path that
    /// already identifies a namespace: nothing is ever replaced. A refusal
    /// leaves the session as it was. The selection is not changed.
    pub fn create_ns(&mut self, ns_name: String, source_file: Option<&str>) -> (r: Result<
        (),
        Error,
    >)
        requires
            old(self).wf(),
        ensures
            final(self).wf(),
            match r {
                Ok(_) => {
                    &&& valid_name(ns_name@)
                    &&& !old(self).knows(ns_name@)
                    &&& source_file matches Some(path) ==> !old(self).knows(path@)
                    &&& final(self).entries().len() == old(self).entries().len() + 1
                    &&& final(self).entries().drop_last() == old(self).entries()
                    &&& final(self).entries().last()@.name == ns_name@
                    &&& match source_file {
                        Some(path) => final(self).entries().last()@.source_path == Some(path@),
                        None => final(self).entries().last()@.source_path is None,
                    }
                    &&& final(self).resolve(ns_name@) == Some(old(self).entries().len() as int)
                    &&& source_file matches Some(path) ==> final(self).resolve(path@) == Some(
                        old(self).entries().len() as int,
                    )
                    &&& final(self).entries().last()@.functions.len() == 0
                    &&& final(self).entries().last().held_functions() == Set::<
                        FunctionValue<'ctx>,
                    >::empty()
                    &&& final(self).entries().last()@.cursor is None
                    &&& final(self).current_index() == old(self).current_index()
                    &&& final(self).session_context() == old(self).session_context()
                    &&& final(self).session_builder() == old(self).session_builder()
                },
                Err(e) => {
                    &&& *final(self) == *old(self)
                    &&& if !valid_name(ns_name@) {
                        e == Error::InvalidName
                    } else {
                        &&& e == Error::DuplicateNamespace
                        &&& old(self).knows(ns_name@) || (source_file matches Some(path) && old(
                            self,
                        ).knows(path@))
                    }
                },
            },
    {
        if !is_valid_name(ns_name.as_str()) {
            return Err(Error::InvalidName);
        }
        if self.resolve_key(&ns_name).is_some() {
            return Err(Error::DuplicateNamespace);
        }
        match source_file {
            Some(path) => {
                let path_key = String::from_str(path);
                if self.resolve_key(&path_key).is_some() {
                    return Err(Error::DuplicateNamespace);
                }
            },
            None => {},
        }
        match Namespace::new(self.context, ns_name, source_file) {
            Ok(ns) => {
                self.namespaces.push(ns);
                proof {
                    assert(self.entries().drop_last() =~= old(self).entries());
                    let last: int = self.entries().len() - 1;
                    assert forall|i: int, j: int, key: Seq<char>|
                        0 <= i < self.entries().len() && 0 <= j < self.entries().len()
                            && #[trigger] self.entries()[i]@.has_key(key)
                            && #[trigger] self.entries()[j]@.has_key(key) implies i == j by {
                        if i < last {
                            assert(old(self).entries()[i]@.has_key(key));
                        }
                        if j < last {
                            assert(old(self).entries()[j]@.has_key(key));
                        }
                    }
                    lemma_key_resolves(*self, self.entries()[last]@.name, last);
                    if let Some(path) = source_file {
                        lemma_key_resolves(*self, path@, last);
                    }
                }
                Ok(())
            },
            Err(e) => Err(e),
        }
    }

    /// Selects the namespace that `ns_name` identifies. Without such a
    /// namespace the selection stays as it was.
    pub fn set_current_ns(&mut self, ns_name: String) -> (r: Result<(), Error>)
        requires
            old(self).wf(),
        ensures
            final(self).wf(),
            final(self).entries() == old(self).entries(),
            final(self).session_context() == old(self).session_context(),
            final(self).session_builder() == old(self).session_builder(),
            match r {
                Ok(_) => old(self).knows(ns_name@) && final(self).current_index() == old(
                    self,
                ).resolve(ns_name@),
                Err(e) => e == Error::UnknownNamespace && !old(self).knows(ns_name@) && *final(self)
                    == *old(self),
            },
    {
        match self.resolve_key(&ns_name) {
            Some(i) => {
                self.current = Some(i);
                Ok(())
            },
            None => Err(Error::UnknownNamespace),
        }
    }

    /// The current namespace, to read or to change; `None` while none is
    /// selected.
    pub fn current_ns(&mut self) -> (r: Option<&mut Namespace<'ctx>>)
        requires
            old(self).wf(),
        ensures
            final(self).current_index() == old(self).current_index(),
            final(self).session_context() == old(self).session_context(),
            final(self).session_builder() == old(self).session_builder(),
            match r {
                Some(ns) => old(self).current_index() matches Some(c) && *ns == old(
                    self,
                ).entries()[c] && final(self).entries() == old(self).entries().update(
                    c,
                    *final(ns),
                ),
                None => !old(self).has_current() && final(self).entries() == old(self).entries(),
            },
    {
        match self.current {
            Some(c) => Some(&mut self.namespaces[c]),
            None => None,
        }
    }

    /// The namespace that `key` identifies, by name or by source path.
    pub fn namespace(&self, key: &String) -> (r: Option<&Namespace<'ctx>>)
        requires
            self.wf(),
        ensures
            match r {
                Some(ns) => self.resolve(key@) matches Some(i) && *ns == self.entries()[i],
                None => !self.knows(key@),
            },
    {
        match self.resolve_key(key) {
            Some(i) => Some(&self.namespaces[i]),
            None => None,
        }
    }

    /// The function being compiled: the one under the cursor of the current
    /// namespace. A namespace must be selected and its cursor set.
    pub fn current_fn(&mut self) -> (r: FunctionValue<'ctx>)
        requires
            old(self).wf(),
            old(self).current_index() matches Some(c) && old(self).entries()[c]@.cursor is Some,
        ensures
            *final(self) == *old(self),
            r == ({
                let ns = old(self).entries()[old(self).current_index()->0]@;
                ns.handles[ns.cursor->0]
            }),
            old(self).entries()[old(self).current_index()->0].held_functions().contains(r),
    {
        self.namespaces[self.current.unwrap()].current_fn()
    }

    /// The LLVM assembly of the namespace that `ns_name` identifies, by name
    /// or by source path, for inspection. The namespace must exist.
    pub fn compile_ns_str(&self, ns_name: String) -> (text: String)
        requires
            self.wf(),
            self.knows(ns_name@),
        ensures
            text@ == self.entries()[self.resolve(ns_name@)->0].assembly(),
    {
        let i: usize = self.resolve_key(&ns_name).unwrap();
        self.namespaces[i].compile()
    }
}

/// A key leads to one namespace: whichever of its keys is used, the name or
/// the source path, the namespace that has it is the one that is found.
pub proof fn lemma_key_resolves<'ctx>(compiler: Compiler<'ctx>, key: Seq<char>, i: int)
    requires
        compiler.wf(),
        0 <= i < compiler.entries().len(),
        compiler.entries()[i]@.has_key(key),
    ensures
        compiler.resolve(key) == Some(i),
{
}

/// A session that differs from a well-formed one in its current namespace
/// only, with the keys kept, is well formed as soon as that namespace is.
pub proof fn lemma_confined_session_is_well_formed<'ctx>(
    before: Compiler<'ctx>,
    after: Compiler<'ctx>,
)
    requires
        before.wf(),
        before.confines(&after),
        before.current_index() matches Some(c) ==> after.entries()[c].wf(),
    ensures
        after.wf(),
{
    assert forall|i: int| 0 <= i < after.entries().len() implies (#[trigger] after.entries()[i]).wf(
    ) by {
        if Some(i) != before.current_index() {
            assert(after.entries()[i] == before.entries()[i]);
        }
    }
    assert forall|i: int, j: int, key: Seq<char>|
        0 <= i < after.entries().len() && 0 <= j < after.entries().len()
            && #[trigger] after.entries()[i]@.has_key(key)
            && #[trigger] after.entries()[j]@.has_key(key) implies i == j by {
        assert(before.entries()[i]@.has_key(key));
        assert(before.entries()[j]@.has_key(key));
    }
}

/// The name of a namespace and its source path lead to the same namespace.
pub proof fn lemma_name_and_path_resolve_alike<'ctx>(compiler: Compiler<'ctx>, i: int)
    requires
        compiler.wf(),
        0 <= i < compiler.entries().len(),
    ensures
        compiler.resolve(compiler.entries()[i]@.name) == Some(i),
        compiler.entries()[i]@.source_path matches Some(path) ==> compiler.resolve(path) == Some(i),
{
    lemma_key_resolves(compiler, compiler.entries()[i]@.name, i);
    if let Some(path) = compiler.entries()[i]@.source_path {
        lemma_key_resolves(compiler, path, i);
    }
}

/// Whether `states` are the states that a session goes through while the
/// nodes of `ast` are lowered one after another, and `out` the outcomes: the
/// node at a place takes the session from the state at that place to the
/// next, and its outcome stands at its own place.
pub open spec fn lowering_steps<'ctx, E: Expression>(
    ast: Seq<E>,
    states: Seq<Compiler<'ctx>>,
    out: Seq<Result<BackendValue<'ctx>, String>>,
) -> bool {
    &&& out.len() == ast.len()
    &&& states.len() == ast.len() + 1
    &&& forall|i: int|
        #![trigger ast[i]]
        0 <= i < ast.len() ==> ast[i].lowering(states[i], states[i + 1], out[i])
}

/// Whether `out` is what lowering the nodes of `ast` one after another, from
/// the first to the last, gives: one outcome for each node, at the node's
/// place, the session going from `before` to `after` step by step.
pub open spec fn lowered_in_order<'ctx, E: Expression>(
    ast: Seq<E>,
    before: Compiler<'ctx>,
    after: Compiler<'ctx>,
    out: Seq<Result<BackendValue<'ctx>, String>>,
) -> bool {
    exists|states: Seq<Compiler<'ctx>>|
        #[trigger] lowering_steps(ast, states, out) && states[0] == before && states[ast.len() as int]
            == after
}

/// Lowering numbers leaves the session as it was, and gives each number, at
/// its own place, the constant of its own kind and value: for an integer the
/// constant, of the session's 64-bit integer type, that has the integer's
/// bits; for a float the double of the same bits.
pub proof fn lemma_numbers_lower_in_place<'ctx>(
    ast: Seq<Number>,
    before: Compiler<'ctx>,
    after: Compiler<'ctx>,
    out: Seq<Result<BackendValue<'ctx>, String>>,
)
    requires
        lowered_in_order(ast, before, after, out),
    ensures
        after == before,
        out.len() == ast.len(),
        forall|i: int|
            0 <= i < ast.len() ==> out[i] == Ok::<BackendValue<'ctx>, String>(
                (#[trigger] ast[i]).lowered(before.session_context()),
            ),
{
    let states = choose|states: Seq<Compiler<'ctx>>|
        #[trigger] lowering_steps(ast, states, out) && states[0] == before && states[ast.len() as int]
            == after;
    lemma_numbers_keep_state(ast, states, out, ast.len() as int);
    assert forall|i: int| 0 <= i < ast.len() implies out[i] == Ok::<BackendValue<'ctx>, String>(
        (#[trigger] ast[i]).lowered(before.session_context()),
    ) by {
        lemma_numbers_keep_state(ast, states, out, i);
        assert(ast[i].lowering(states[i], states[i + 1], out[i]));
    }
}

/// Along a run of numbers every state of the session is the first one.
proof fn lemma_numbers_keep_state<'ctx>(
    ast: Seq<Number>,
    states: Seq<Compiler<'ctx>>,
    out: Seq<Result<BackendValue<'ctx>, String>>,
    k: int,
)
    requires
        0 <= k <= ast.len(),
        lowering_steps(ast, states, out),
    ensures
        states[k] == states[0],
    decreases k,
{
    if k > 0 {
        lemma_numbers_keep_state(ast, states, out, k - 1);
        assert(ast[k - 1].lowering(states[k - 1], states[k - 1 + 1], out[k - 1]));
    }
}

/// Lowers the top-level forms of `ast`, in their order, into the current
/// namespace of `compiler`, which must be selected.
///
/// Every form gets its outcome, a value or a diagnostic, at its own place: a
/// form that fails does not stop the ones after it.
pub fn compile<'ctx, E: Expression>(compiler: &mut Compiler<'ctx>, ast: Vec<E>) -> (out: Vec<
    Result<BackendValue<'ctx>, String>,
>)
    requires
        old(compiler).wf(),
        old(compiler).has_current(),
    ensures
        final(compiler).wf(),
        old(compiler).confines(final(compiler)),
        lowered_in_order(ast@, *old(compiler), *final(compiler), out@),
{
    let mut generated_code: Vec<Result<BackendValue<'ctx>, String>> = Vec::new();
    let ghost mut states: Seq<Compiler<'ctx>> = seq![*compiler];
    let mut i: usize = 0;
    while i < ast.len()
        invariant
            i <= ast.len(),
            compiler.wf(),
            compiler.has_current(),
            old(compiler).confines(compiler),
            generated_code.len() == i,
            states.len() == i + 1,
            states[0] == *old(compiler),
            states[i as int] == *compiler,
            forall|k: int|
                #![trigger ast@[k]]
                0 <= k < i ==> ast@[k].lowering(states[k], states[k + 1], generated_code@[k]),
        decreases ast.len() - i,
    {
        let outcome = ast[i].code_gen(compiler);
        generated_code.push(outcome);
        proof {
            states = states.push(*compiler);
        }
        i = i + 1;
    }
    proof {
        assert(lowering_steps(ast@, states, generated_code@));
    }
    generated_code
}

/// Lowers the top-level forms of `ast` as `compile` does, if a namespace is
/// selected. If none is, no form is lowered and the session is left as it
/// was; the answer is then `None`, which is no list of outcomes, not even an
/// empty one, and no diagnostic of any form.
pub fn try_compile<'ctx, E: Expression>(compiler: &mut Compiler<'ctx>, ast: Vec<E>) -> (r: Option<
    Vec<Result<BackendValue<'ctx>, String>>,
>)
    requires
        old(compiler).wf(),
    ensures
        final(compiler).wf(),
        r is Some <==> old(compiler).has_current(),
        r matches Some(out) ==> old(compiler).confines(final(compiler)) && lowered_in_order(
            ast@,
            *old(compiler),
            *final(compiler),
            out@,
        ),
        r is None ==> *final(compiler) == *old(compiler),
{
    if compiler.has_current_ns() {
        Some(compile(compiler, ast))
    } else {
        None
    }
}

/// A fresh LLVM context, for a session to work in.
pub fn create_context() -> Context {
    Context::create()
}

} // verus!
