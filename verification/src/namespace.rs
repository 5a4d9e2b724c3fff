//! A namespace: one compilation unit, with its LLVM module, the functions
//! defined in it and the function that code is currently generated into.
use crate::backend::{add_function, module_assembly, module_functions, module_text};
use crate::error::Error;
use inkwell::context::Context;
use inkwell::module::Module;
use inkwell::types::FunctionType;
use inkwell::values::FunctionValue;
use vstd::prelude::*;

verus! {

/// The path separator, which no namespace name may hold: a name and a source
/// path are both keys to a namespace, and must be told apart.
pub const PATH_SEPARATOR: char = '/';

/// Whether `name` can name a namespace.
pub open spec fn valid_name(name: Seq<char>) -> bool {
    !name.contains(PATH_SEPARATOR)
}

/// One row of a namespace's function table.
struct FunctionEntry<'ctx> {
    name: String,
    handle: FunctionValue<'ctx>,
}

/// One compilation unit.
pub struct Namespace<'ctx> {
    name: String,
    source_path: Option<String>,
    module: Module<'ctx>,
    functions: Vec<FunctionEntry<'ctx>>,
    current: Option<usize>,
}

/// What a namespace is, apart from the contents of its module.
pub ghost struct NamespaceView<'ctx> {
    /// The name, unique in a compiler session.
    pub name: Seq<char>,
    /// The file the namespace was read from, if any.
    pub source_path: Option<Seq<char>>,
    /// The names of the functions defined, in the order of definition.
    pub functions: Seq<Seq<char>>,
    /// Their handles, in the same order.
    pub handles: Seq<FunctionValue<'ctx>>,
    /// The position, in `functions`, of the function being generated into.
    pub cursor: Option<int>,
}

impl<'ctx> NamespaceView<'ctx> {
    /// Whether `key` identifies the namespace: it is its name or its source
    /// path.
    pub open spec fn has_key(self, key: Seq<char>) -> bool {
        self.name == key || self.source_path == Some(key)
    }

    /// The position of the function called `name`, if there is one.
    pub open spec fn position(self, name: Seq<char>) -> Option<int> {
        if exists|i: int| 0 <= i < self.functions.len() && self.functions[i] == name {
            Some(choose|i: int| 0 <= i < self.functions.len() && self.functions[i] == name)
        } else {
            None
        }
    }
}

impl<'ctx> View for Namespace<'ctx> {
    type V = NamespaceView<'ctx>;

    closed spec fn view(&self) -> NamespaceView<'ctx> {
        NamespaceView {
            name: self.name@,
            source_path: match self.source_path {
                Some(path) => Some(path@),
                None => None,
            },
            functions: self.functions@.map_values(|e: FunctionEntry<'ctx>| e.name@),
            handles: self.functions@.map_values(|e: FunctionEntry<'ctx>| e.handle),
            cursor: match self.current {
                Some(c) => Some(c as int),
                None => None,
            },
        }
    }
}

/// Where no two functions share a name, a name stands at one position only.
pub proof fn lemma_position_of(ns: NamespaceView, name: Seq<char>, i: int)
    requires
        forall|a: int, b: int| 0 <= a < b < ns.functions.len() ==> ns.functions[a] != ns.functions[b],
        0 <= i < ns.functions.len(),
        ns.functions[i] == name,
    ensures
        ns.position(name) == Some(i),
{
    let chosen: int = choose|k: int| 0 <= k < ns.functions.len() && ns.functions[k] == name;
    if chosen < i {
        assert(ns.functions[chosen] != ns.functions[i]);
    } else if i < chosen {
        assert(ns.functions[i] != ns.functions[chosen]);
    }
}

/// Whether `name` holds no path separator.
pub fn is_valid_name(name: &str) -> (r: bool)
    ensures
        r == valid_name(name@),
{
    let n: usize = name.unicode_len();
    let mut i: usize = 0;
    while i < n
        invariant
            i <= n,
            n == name@.len(),
            forall|j: int| 0 <= j < i ==> name@[j] != PATH_SEPARATOR,
        decreases n - i,
    {
        if name.get_char(i) == PATH_SEPARATOR {
            return false;
        }
        i = i + 1;
    }
    true
}

impl<'ctx> Namespace<'ctx> {
    /// The invariant of a namespace: its name is valid, no two of its
    /// functions share a name, every function of its table is held by its
    /// own module, and the cursor, when set, is on one of them.
    pub open spec fn wf(&self) -> bool {
        &&& valid_name(self@.name)
        &&& self@.handles.len() == self@.functions.len()
        &&& forall|i: int|
            0 <= i < self@.handles.len() ==> self.held_functions().contains(
                #[trigger] self@.handles[i],
            )
        &&& forall|i: int, j: int|
            0 <= i < j < self@.functions.len() ==> self@.functions[i] != self@.functions[j]
        &&& self@.cursor matches Some(c) ==> 0 <= c < self@.functions.len()
    }

    /// The functions that the namespace's module holds.
    pub open spec fn held_functions(&self) -> Set<FunctionValue<'ctx>> {
        module_functions(self.backend_module())
    }

    /// A new namespace with an empty module of its own, no function and no
    /// cursor. A name that holds `/` is refused.
    pub fn new(context: &'ctx Context, name: String, source_path: Option<&str>) -> (r: Result<
        Namespace<'ctx>,
        Error,
    >)
        ensures
            r is Ok <==> valid_name(name@),
            r matches Ok(ns) ==> ns.wf() && ns@.name == name@ && ns@.functions.len() == 0
                && ns.held_functions() == Set::<FunctionValue<'ctx>>::empty()
                && ns@.cursor is None && match source_path {
                Some(path) => ns@.source_path == Some(path@),
                None => ns@.source_path is None,
            },
            r matches Err(e) ==> e == Error::InvalidName,
    {
        if !is_valid_name(name.as_str()) {
            return Err(Error::InvalidName);
        }
        let module = context.create_module(name.as_str());
        let source_path = match source_path {
            Some(path) => Some(String::from_str(path)),
            None => None,
        };
        let ns = Namespace { name, source_path, module, functions: Vec::new(), current: None };
        assert(ns@.functions =~= Seq::empty());
        assert(ns@.handles =~= Seq::empty());
        Ok(ns)
    }

    /// The name.
    pub fn name(&self) -> (r: &String)
        ensures
            r@ == self@.name,
    {
        &self.name
    }

    /// The file the namespace was read from, if any.
    pub fn source_path(&self) -> (r: Option<&String>)
        ensures
            match r {
                Some(path) => self@.source_path == Some(path@),
                None => self@.source_path is None,
            },
    {
        self.source_path.as_ref()
    }

    /// The LLVM module that holds the namespace's code.
    pub closed spec fn backend_module(&self) -> Module<'ctx> {
        self.module
    }

    /// What the namespace has generated so far, as LLVM assembly.
    pub open spec fn assembly(&self) -> Seq<char> {
        module_assembly(self.backend_module())
    }

    /// The LLVM module that holds the namespace's code.
    pub fn module(&self) -> (r: &Module<'ctx>)
        ensures
            *r == self.backend_module(),
    {
        &self.module
    }

    /// Whether `key` is the name or the source path.
    pub fn has_key(&self, key: &String) -> (r: bool)
        ensures
            r == self@.has_key(key@),
    {
        if self.name == *key {
            return true;
        }
        match &self.source_path {
            Some(path) => *path == *key,
            None => false,
        }
    }

    /// Where in the table the function called `name` stands, if it is there.
    fn find(&self, name: &String) -> (r: Option<usize>)
        requires
            self.wf(),
        ensures
            match r {
                Some(i) => self@.position(name@) == Some(i as int) && i < self@.functions.len()
                    && self@.functions[i as int] == name@,
                None => self@.position(name@) is None,
            },
    {
        let mut i: usize = 0;
        while i < self.functions.len()
            invariant
                self.wf(),
                i <= self.functions.len(),
                self.functions.len() == self@.functions.len(),
                forall|j: int| 0 <= j < i ==> self@.functions[j] != name@,
            decreases self.functions.len() - i,
        {
            if self.functions[i].name == *name {
                proof {
                    lemma_position_of(self@, name@, i as int);
                }
                return Some(i);
            }
            i = i + 1;
        }
        None
    }

    /// The handle of the function called `name`, if the namespace has one.
    pub fn get_function(&self, name: &String) -> (r: Option<FunctionValue<'ctx>>)
        requires
            self.wf(),
        ensures
            match r {
                Some(handle) => self@.position(name@) matches Some(i) && handle
                    == self@.handles[i],
                None => self@.position(name@) is None,
            },
    {
        match self.find(name) {
            Some(i) => Some(self.functions[i].handle),
            None => None,
        }
    }

    /// Makes a new function of type `ty`, adds it to the module and to the
    /// table, and gives its handle. A name that the table already holds is
    /// refused, and the namespace is left as it was.
    pub fn define_function(&mut self, name: String, ty: FunctionType<'ctx>) -> (r: Result<
        FunctionValue<'ctx>,
        Error,
    >)
        requires
            old(self).wf(),
        ensures
            final(self).wf(),
            final(self)@.name == old(self)@.name,
            final(self)@.source_path == old(self)@.source_path,
            final(self)@.cursor == old(self)@.cursor,
            r is Ok <==> old(self)@.position(name@) is None,
            r matches Ok(handle) ==> final(self)@.functions == old(self)@.functions.push(name@)
                && final(self)@.handles == old(self)@.handles.push(handle)
                && final(self)@.position(name@) == Some(old(self)@.functions.len() as int)
                && !old(self).held_functions().contains(handle)
                && final(self).held_functions() == old(self).held_functions().insert(handle),
            r matches Err(e) ==> e == Error::DuplicateFunction && *final(self) == *old(self),
    {
        if self.find(&name).is_some() {
            return Err(Error::DuplicateFunction);
        }
        let handle = add_function(&mut self.module, name.as_str(), ty);
        let ghost name_view = name@;
        self.functions.push(FunctionEntry { name, handle });
        proof {
            assert(self@.functions =~= old(self)@.functions.push(name_view));
            assert(self@.handles =~= old(self)@.handles.push(handle));
            lemma_position_of(self@, name_view, old(self)@.functions.len() as int);
        }
        Ok(handle)
    }

    /// Moves the cursor to the function called `name`. Without such a
    /// function the cursor stays where it was.
    pub fn enter_function(&mut self, name: &String) -> (r: Result<(), Error>)
        requires
            old(self).wf(),
        ensures
            final(self).wf(),
            final(self)@.name == old(self)@.name,
            final(self)@.source_path == old(self)@.source_path,
            final(self)@.functions == old(self)@.functions,
            final(self)@.handles == old(self)@.handles,
            final(self).backend_module() == old(self).backend_module(),
            match r {
                Ok(_) => old(self)@.position(name@) is Some && final(self)@.cursor == old(
                    self,
                )@.position(name@),
                Err(e) => e == Error::UnknownFunction && old(self)@.position(name@) is None
                    && *final(self) == *old(self),
            },
    {
        match self.find(name) {
            Some(i) => {
                self.current = Some(i);
                Ok(())
            },
            None => Err(Error::UnknownFunction),
        }
    }

    /// Whether the cursor is set.
    pub fn has_current_fn(&self) -> (r: bool)
        ensures
            r == self@.cursor is Some,
    {
        self.current.is_some()
    }

    /// The function that code is being generated into. The cursor must be
    /// set.
    pub fn current_fn(&self) -> (r: FunctionValue<'ctx>)
        requires
            self.wf(),
            self@.cursor is Some,
        ensures
            r == self@.handles[self@.cursor->0],
            self.held_functions().contains(r),
    {
        self.functions[self.current.unwrap()].handle
    }

    /// What the namespace has generated so far, as LLVM assembly, for
    /// inspection.
    pub fn compile(&self) -> (text: String)
        ensures
            text@ == self.assembly(),
    {
        module_text(&self.module)
    }
}

} // verus!
