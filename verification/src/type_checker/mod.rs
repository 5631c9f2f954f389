//! Type checking: infers the types of expressions, checks declarations,
//! calls and returns against annotations, and narrows types under guards.
use vstd::prelude::*;

pub mod env;
pub mod error;
pub mod infer;
pub mod ty;

use crate::config::CompilerOptions;
use crate::type_checker::error::TypeError;
use crate::type_checker::ty::Type;

verus! {

/// Errors are only ever added: `a` is a prefix of `b`.
pub open spec fn errors_grow(a: Seq<TypeError>, b: Seq<TypeError>) -> bool {
    &&& a.len() <= b.len()
    &&& forall|i: int| 0 <= i < a.len() ==> #[trigger] b[i] == a[i]
}

pub struct TypeChecker {
    pub errors: Vec<TypeError>,
    pub current_class_type: Option<Type>,
    /// Expected return type for the current function body (the `T` of
    /// `Promise<T>` for an async function).
    pub current_return_type: Option<Type>,
    /// Names whose type a guard has narrowed, with the narrowed type.
    pub narrowed: Vec<(String, Type)>,
    /// Module key → exported name → type, for types across files.
    pub module_registry: Vec<(String, Vec<(String, Type)>)>,
    /// Path of the file being checked (for relative imports).
    pub current_module: String,
    /// Compiler options from tsconfig.json.
    pub options: CompilerOptions,
    /// Project root directory (for path aliases).
    pub root_dir: String,
}

impl TypeChecker {
    /// What stays fixed while a program is checked.
    pub open spec fn same_setting(self, other: Self) -> bool {
        &&& other.options == self.options
        &&& other.module_registry == self.module_registry
        &&& other.current_module == self.current_module
        &&& other.root_dir == self.root_dir
    }

    pub fn new() -> (c: Self)
        ensures
            c.errors@.len() == 0,
            c.current_class_type is None,
            c.current_return_type is None,
            c.narrowed@.len() == 0,
            c.module_registry@.len() == 0,
            c.current_module@.len() == 0,
            crate::config::no_options(c.options),
            c.root_dir@.len() == 0,
    {
        TypeChecker {
            errors: Vec::new(),
            current_class_type: None,
            current_return_type: None,
            narrowed: Vec::new(),
            module_registry: Vec::new(),
            current_module: String::new(),
            options: CompilerOptions::default(),
            root_dir: String::new(),
        }
    }

    /// Whether strict mode is on.
    pub fn is_strict(&self) -> (r: bool)
        ensures
            r == (self.options.strict == Some(true)),
    {
        match self.options.strict {
            Some(b) => b,
            None => false,
        }
    }
}

impl Default for TypeChecker {
    fn default() -> (c: Self)
        ensures
            c.errors@.len() == 0,
            c.narrowed@.len() == 0,
            c.module_registry@.len() == 0,
    {
        TypeChecker::new()
    }
}

} // verus!
