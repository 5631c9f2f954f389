//! Loading a program: the entry module, then every module it imports,
//! depth first, each registered with the compiler after the modules it
//! imports. Reading files is left to the caller, which asks `step` what to
//! do next and hands back what it read.
use vstd::prelude::*;

use crate::ast::Program;
use crate::compiler::{alias_ok, import_list, import_target, Compiler};
use crate::text::{byte_len, string_of_str};

verus! {

/// A module being loaded: its imports up to `next` have been followed.
pub struct LoadFrame {
    pub path: String,
    pub source: String,
    pub program: Program,
    pub imports: Vec<String>,
    pub next: usize,
}

/// What the caller does next.
pub enum LoadAction {
    /// Read this file and hand its contents to `file_read`.
    Read(String),
    /// Nothing outside: call `step` again.
    Working,
    /// Every module is registered.
    Finished,
}

/// The loading state: the modules being loaded, innermost last, and the
/// path asked for, if any.
pub struct Loader {
    pub frames: Vec<LoadFrame>,
    pub pending: Option<String>,
}

/// The file an import names, as the compiler resolves it.
pub open spec fn resolved(c: Compiler, source: Seq<char>, from: Seq<char>) -> Option<Seq<char>> {
    if alias_ok(source, c.options) {
        import_target(source, from, c.root_dir@, c.options)
    } else {
        None
    }
}

/// A module of this path is registered.
pub open spec fn registered(c: Compiler, path: Seq<char>) -> bool {
    exists|i: int| 0 <= i < c.modules@.len() && (#[trigger] c.modules@[i]).path@ == path
}

/// The paths of the import sources of a frame.
pub open spec fn frame_imports(f: LoadFrame) -> Seq<Seq<char>> {
    f.imports@.map_values(|s: String| s@)
}

/// Every import of `f` that names a file names a registered module.
pub open spec fn imports_registered(c: Compiler, f: LoadFrame) -> bool {
    forall|j: int|
        0 <= j < f.imports@.len() ==> (#[trigger] resolved(c, f.imports@[j]@, f.path@) matches Some(
            q,
        ) ==> registered(c, q))
}

impl Loader {
    pub open spec fn pending_view(self) -> Option<Seq<char>> {
        match self.pending {
            Some(p) => Some(p@),
            None => None,
        }
    }

    /// Each followed import of a frame names a registered module, or, for
    /// the last one followed, the module being loaded right above it (the
    /// path asked for, above the innermost frame).
    pub open spec fn inv(self, c: Compiler) -> bool {
        &&& c.wf()
        &&& forall|k: int|
            0 <= k < self.frames@.len() ==> (#[trigger] self.frames@[k]).next
                <= self.frames@[k].imports@.len()
        &&& forall|k: int|
            0 <= k < self.frames@.len() ==> byte_len((#[trigger] self.frames@[k]).source@)
                < usize::MAX
        &&& forall|k: int, j: int|
            0 <= k < self.frames@.len() && 0 <= j < self.frames@[k].next ==> (#[trigger] resolved(
                c,
                self.frames@[k].imports@[j]@,
                self.frames@[k].path@,
            ) matches Some(q) ==> registered(c, q) || self.follows(k, j, q))
    }

    /// The import `j` of frame `k` is the last one it followed, and the
    /// module `q` it names is the one being loaded above it.
    pub open spec fn follows(self, k: int, j: int, q: Seq<char>) -> bool {
        &&& j == self.frames@[k].next - 1
        &&& (k == self.frames@.len() - 1 ==> self.pending_view() == Some(q))
        &&& (k < self.frames@.len() - 1 ==> self.frames@[k + 1].path@ == q)
    }

    /// Loading starts by asking for the entry module.
    pub fn new(entry: &str) -> (l: Loader)
        ensures
            l.frames@.len() == 0,
            l.pending_view() == Some(entry@),
    {
        Loader { frames: Vec::new(), pending: Some(string_of_str(entry)) }
    }

    /// One decision: ask for the path pending unless its module is already
    /// registered; else follow the next import of the innermost module;
    /// else register that module and leave it; else loading is done.
    pub fn step(&mut self, c: &mut Compiler) -> (a: LoadAction)
        requires
            old(self).inv(*old(c)),
        ensures
            final(self).inv(*final(c)),
            final(c).options == old(c).options,
            final(c).root_dir == old(c).root_dir,
            final(c).registry == old(c).registry,
            final(c).out_dir == old(c).out_dir,
            final(c).ferrite_cfg == old(c).ferrite_cfg,
            match old(self).pending_view() {
                Some(p) => if registered(*old(c), p) {
                    a is Working && final(self).pending is None && final(self).frames
                        == old(self).frames && *final(c) == *old(c)
                } else {
                    (a matches LoadAction::Read(r) && r@ == p) && *final(self) == *old(self)
                        && *final(c) == *old(c)
                },
                None => if old(self).frames@.len() == 0 {
                    a is Finished && *final(self) == *old(self) && *final(c) == *old(c)
                } else {
                    let top = old(self).frames@.last();
                    let n = old(self).frames@.len() - 1;
                    if top.next < top.imports@.len() {
                        &&& a is Working
                        &&& *final(c) == *old(c)
                        &&& final(self).frames@.len() == old(self).frames@.len()
                        &&& final(self).frames@.take(n) == old(self).frames@.take(n)
                        &&& final(self).frames@[n] == (LoadFrame { next: (top.next + 1) as usize, ..top })
                        &&& final(self).pending_view() == resolved(
                            *old(c),
                            top.imports@[top.next as int]@,
                            top.path@,
                        )
                    } else {
                        &&& a is Working
                        &&& final(self).frames@ == old(self).frames@.drop_last()
                        &&& final(self).pending is None
                        &&& final(c).modules@.len() == old(c).modules@.len() + 1
                        &&& final(c).modules@.take(old(c).modules@.len() as int) == old(c).modules@
                        &&& final(c).modules@.last().path@ == top.path@
                        &&& final(c).modules@.last().source@ == top.source@
                        &&& final(c).modules@.last().program == top.program
                        &&& imports_registered(*old(c), top)
                    }
                },
            },
    {
        match self.pending.take() {
            Some(p) => {
                if c.has_module(p.as_str()) {
                    proof {
                        let i = choose|i: int|
                            0 <= i < c.modules@.len() && (#[trigger] c.modules@[i]).path@ == p@;
                        assert(c.modules@[i].path@ == p@);
                    }
                    return LoadAction::Working;
                }
                self.pending = Some(p.clone());
                proof {
                    assert(!registered(*c, p@));
                }
                return LoadAction::Read(p);
            },
            None => {},
        }
        let n = self.frames.len();
        if n == 0 {
            return LoadAction::Finished;
        }
        let ghost old_frames = self.frames@;
        let ghost c0 = *c;
        if self.frames[n - 1].next < self.frames[n - 1].imports.len() {
            let mut top = self.frames.pop().unwrap();
            let j = top.next;
            let target = c.resolve_import(top.imports[j].as_str(), top.path.as_str());
            top.next = j + 1;
            self.frames.push(top);
            self.pending = target;
            proof {
                assert(self.frames@.take(n - 1) =~= old_frames.take(n - 1));
                assert forall|k: int, i: int|
                    0 <= k < self.frames@.len() && 0 <= i < self.frames@[k].next implies (
                    #[trigger] resolved(
                        *c,
                        self.frames@[k].imports@[i]@,
                        self.frames@[k].path@,
                    ) matches Some(q) ==> registered(*c, q) || self.follows(k, i, q)) by {
                    if k < n - 1 {
                        assert(self.frames@[k] == old_frames[k]);
                        assert(self.frames@[k + 1].path@ == old_frames[k + 1].path@);
                    } else if i < j {
                        assert(self.frames@[k].imports@[i] == old_frames[k].imports@[i]);
                        assert(self.frames@[k].path@ == old_frames[k].path@);
                    }
                }
            }
            LoadAction::Working
        } else {
            let top = self.frames.pop().unwrap();
            proof {
                assert(self.frames@ =~= old_frames.drop_last());
                assert forall|j: int|
                    0 <= j < top.imports@.len() implies (#[trigger] resolved(
                    c0,
                    top.imports@[j]@,
                    top.path@,
                ) matches Some(q) ==> registered(c0, q)) by {
                    assert(old_frames[n - 1] == top);
                }
            }
            c.add_module(top.path.as_str(), top.source.as_str(), top.program);
            proof {
                assert(c.modules@.take(c0.modules@.len() as int) =~= c0.modules@);
                assert forall|q: Seq<char>| registered(c0, q) implies registered(*c, q) by {
                    let i = choose|i: int|
                        0 <= i < c0.modules@.len() && (#[trigger] c0.modules@[i]).path@ == q;
                    assert(c.modules@[i] == c0.modules@[i]);
                }
                assert(registered(*c, top.path@)) by {
                    assert(c.modules@[c.modules@.len() - 1].path@ == top.path@);
                }
                assert forall|k: int, i: int|
                    0 <= k < self.frames@.len() && 0 <= i < self.frames@[k].next implies (
                    #[trigger] resolved(
                        *c,
                        self.frames@[k].imports@[i]@,
                        self.frames@[k].path@,
                    ) matches Some(q) ==> registered(*c, q) || self.follows(k, i, q)) by {
                    assert(self.frames@[k] == old_frames[k]);
                    assert(resolved(*c, self.frames@[k].imports@[i]@, self.frames@[k].path@)
                        == resolved(c0, old_frames[k].imports@[i]@, old_frames[k].path@));
                    if k == self.frames@.len() - 1 {
                        assert(old_frames[k + 1].path@ == top.path@);
                    }
                }
            }
            LoadAction::Working
        }
    }

    /// Takes the contents of the file asked for. When they lex and parse,
    /// the module goes on the stack, to follow its imports; else the
    /// errors come back and the loader is as it was.
    pub fn file_read(&mut self, c: &Compiler, source: &str) -> (r: Result<(), Vec<String>>)
        requires
            old(self).inv(*c),
            old(self).pending is Some,
            byte_len(source@) < usize::MAX,
        ensures
            final(self).inv(*c),
            r matches Err(es) ==> es@.len() > 0 && *final(self) == *old(self),
            r is Ok ==> {
                &&& final(self).pending is None
                &&& final(self).frames@.len() == old(self).frames@.len() + 1
                &&& final(self).frames@.drop_last() == old(self).frames@
                &&& Some(final(self).frames@.last().path@) == old(self).pending_view()
                &&& final(self).frames@.last().source@ == source@
                &&& frame_imports(final(self).frames@.last()) == import_list(
                    final(self).frames@.last().program.body@,
                )
                &&& final(self).frames@.last().next == 0
            },
    {
        let path = match &self.pending {
            Some(p) => p.clone(),
            None => {
                return Ok(());
            },
        };
        let program = match Compiler::parse_module(path.as_str(), source) {
            Ok(p) => p,
            Err(es) => {
                return Err(es);
            },
        };
        let imports = Compiler::import_sources(&program);
        let ghost old_frames = self.frames@;
        let ghost q = path@;
        self.frames.push(
            LoadFrame { path, source: string_of_str(source), program, imports, next: 0 },
        );
        self.pending = None;
        proof {
            assert(self.frames@.drop_last() =~= old_frames);
            assert forall|k: int, i: int|
                0 <= k < self.frames@.len() && 0 <= i < self.frames@[k].next implies (
                #[trigger] resolved(
                    *c,
                    self.frames@[k].imports@[i]@,
                    self.frames@[k].path@,
                ) matches Some(t) ==> registered(*c, t) || self.follows(k, i, t)) by {
                assert(self.frames@[k] == old_frames[k]);
            }
        }
        Ok(())
    }
}

} // verus!
