//! Type annotations.
use vstd::prelude::*;

use crate::ast::{Expression, LiteralValue, ObjectTypeProperty, TypeAnn};
use crate::parser::Parser;
use crate::text::{chars_of, vec_eq};
use crate::token::{Span, Token, TokenKind};

verus! {

/// The primitive type a type keyword names.
pub open spec fn primitive_keyword(name: Seq<char>) -> Option<TypeAnn> {
    if name == "number"@ {
        Some(TypeAnn::Number)
    } else if name == "string"@ {
        Some(TypeAnn::String)
    } else if name == "boolean"@ {
        Some(TypeAnn::Boolean)
    } else if name == "any"@ {
        Some(TypeAnn::Any)
    } else if name == "unknown"@ {
        Some(TypeAnn::Unknown)
    } else if name == "never"@ {
        Some(TypeAnn::Never)
    } else {
        None
    }
}

/// The type a single token stands for, where the token alone decides it:
/// a primitive keyword, `null`, `undefined`, `void`, or a literal type.
pub open spec fn token_type(kind: TokenKind) -> Option<TypeAnn> {
    match kind {
        TokenKind::Identifier(n) => primitive_keyword(n@),
        TokenKind::Null => Some(TypeAnn::Null),
        TokenKind::Undefined => Some(TypeAnn::Undefined),
        TokenKind::Void => Some(TypeAnn::Void),
        TokenKind::Number(n) => Some(TypeAnn::Literal { value: LiteralValue::Number(n) }),
        TokenKind::String(s) => Some(TypeAnn::Literal { value: LiteralValue::String(s) }),
        TokenKind::True => Some(TypeAnn::Literal { value: LiteralValue::Boolean(true) }),
        TokenKind::False => Some(TypeAnn::Literal { value: LiteralValue::Boolean(false) }),
        _ => None,
    }
}

/// A name token that is neither a primitive keyword nor `infer`: a
/// reference to a named type.
pub open spec fn type_name_token(kind: TokenKind) -> Option<String> {
    match kind {
        TokenKind::Identifier(n) => if primitive_keyword(n@) is None && n@ != "infer"@ {
            Some(n)
        } else {
            None
        },
        _ => None,
    }
}

/// A token after which a type is complete: no qualified name, type
/// arguments, brackets, union, intersection or conditional continues it.
pub open spec fn ends_type(kind: TokenKind) -> bool {
    !(kind is Dot || kind is Lt || kind is OpenBracket || kind is Pipe || kind is Amp
        || kind is Extends)
}

/// The tokens from `o` are a keyword or literal type and then a token that
/// ends it: that type.
pub open spec fn lone_type(t: Seq<Token>, o: int) -> Option<TypeAnn> {
    if 0 <= o && o + 1 < t.len() && ends_type(t[o + 1].kind) {
        token_type(t[o].kind)
    } else {
        None
    }
}

/// Whether `s` spells `lit`.
pub fn string_is(s: &String, lit: &str) -> (r: bool)
    ensures
        r == (s@ == lit@),
{
    let a = chars_of(s.as_str());
    let b = chars_of(lit);
    vec_eq(&a, &b)
}

impl Parser {
    /// `: Type`.
    pub fn parse_type_annotation(&mut self) -> (t: Option<TypeAnn>)
        requires
            old(self).wf(),
            old(self).spec_peek().kind is Colon,
        ensures
            old(self).step(*final(self)),
            final(self).pos() > old(self).pos(),
        decreases old(self).remaining(), 0int,
    {
        self.expect(TokenKind::Colon);
        self.parse_type()
    }

    /// A type: an atom with qualified names, type arguments, `[]` and
    /// `[K]` suffixes, then a union, intersection or conditional type.
    pub fn parse_type(&mut self) -> (t: Option<TypeAnn>)
        requires
            old(self).wf(),
        ensures
            old(self).step(*final(self)),
            t is Some ==> final(self).pos() > old(self).pos(),
            token_type(old(self).spec_peek().kind) is Some || type_name_token(
                old(self).spec_peek().kind,
            ) is Some ==> t is Some,
            lone_type(old(self).token_seq(), old(self).pos()) matches Some(a) ==> t == Some(a)
                && final(self).pos() == old(self).pos() + 1,
        decreases old(self).remaining(), 2int,
    {
        let ghost lone = lone_type(self.token_seq(), self.pos());
        let ghost o = self.pos();
        proof {
            if lone is Some {
                assert(self.peek_index() == o);
            }
        }
        let mut type_ann = match self.parse_atom_type() {
            Some(t) => t,
            None => {
                return None;
            },
        };
        proof {
            if lone is Some {
                assert(self.spec_peek() == self.token_seq()[o + 1]);
            }
        }
        // Dotted qualified names (e.g., z.infer)
        loop
            invariant
                old(self).step(*self),
                self.pos() > old(self).pos(),
                lone == lone_type(old(self).token_seq(), old(self).pos()),
                o == old(self).pos(),
                lone matches Some(a) ==> self.pos() == o + 1 && type_ann == a && self.spec_peek()
                    == old(self).token_seq()[o + 1],
            decreases self.remaining(),
        {
            if !matches!(self.peek().kind, TokenKind::Dot) {
                break;
            }
            match type_ann {
                TypeAnn::TypeRef { name, type_args } => {
                    self.advance();
                    let mut name = name;
                    let k = self.peek().kind.clone();
                    match k {
                        TokenKind::Identifier(part) => {
                            name.push('.');
                            name.push_str(part.as_str());
                            self.advance();
                        },
                        _ => {},
                    }
                    type_ann = TypeAnn::TypeRef { name, type_args };
                },
                other => {
                    type_ann = other;
                    break;
                },
            }
        }
        // Generic type arguments (e.g., <string, number>)
        if matches!(self.peek().kind, TokenKind::Lt) && !matches!(
            self.peek_ahead(1).kind,
            TokenKind::Eq
        ) {
            self.advance();
            let mut args: Vec<TypeAnn> = Vec::new();
            while !matches!(self.peek().kind, TokenKind::Gt) && !self.is_at_end()
                invariant
                    old(self).step(*self),
                    self.pos() > old(self).pos(),
                decreases self.remaining(),
            {
                match self.parse_type() {
                    Some(t) => args.push(t),
                    None => {
                        self.advance();
                    },
                }
                if matches!(self.peek().kind, TokenKind::Comma) {
                    self.advance();
                }
            }
            self.advance();
            type_ann = match type_ann {
                TypeAnn::TypeRef { name, type_args: _ } => TypeAnn::TypeRef { name, type_args: args },
                other => other,
            };
        }
        // Postfix brackets: T[K] (indexed access) or T[] (array)
        while matches!(self.peek().kind, TokenKind::OpenBracket)
            invariant
                old(self).step(*self),
                self.pos() > old(self).pos(),
                lone == lone_type(old(self).token_seq(), old(self).pos()),
                o == old(self).pos(),
                lone matches Some(a) ==> self.pos() == o + 1 && type_ann == a && self.spec_peek()
                    == old(self).token_seq()[o + 1],
            decreases self.remaining(),
        {
            if matches!(self.peek_ahead(1).kind, TokenKind::CloseBracket) {
                self.advance();
                self.advance();
                type_ann = TypeAnn::Array { element: Box::new(type_ann) };
            } else {
                self.advance();
                match self.parse_type() {
                    Some(index) => {
                        if matches!(self.peek().kind, TokenKind::CloseBracket) {
                            self.advance();
                            type_ann = TypeAnn::IndexedAccess {
                                target: Box::new(type_ann),
                                index: Box::new(index),
                            };
                        }
                    },
                    None => {},
                }
            }
        }
        // Union, intersection or conditional types
        if matches!(self.peek().kind, TokenKind::Pipe) {
            let mut types: Vec<TypeAnn> = Vec::new();
            types.push(type_ann);
            while matches!(self.peek().kind, TokenKind::Pipe)
                invariant
                    old(self).step(*self),
                    self.pos() > old(self).pos(),
                decreases self.remaining(),
            {
                self.advance();
                match self.parse_type() {
                    Some(t) => types.push(t),
                    None => {},
                }
            }
            Some(TypeAnn::Union { types })
        } else if matches!(self.peek().kind, TokenKind::Amp) {
            let mut types: Vec<TypeAnn> = Vec::new();
            types.push(type_ann);
            while matches!(self.peek().kind, TokenKind::Amp)
                invariant
                    old(self).step(*self),
                    self.pos() > old(self).pos(),
                decreases self.remaining(),
            {
                self.advance();
                match self.parse_atom_type() {
                    Some(t) => types.push(t),
                    None => {},
                }
            }
            Some(TypeAnn::Intersection { types })
        } else if matches!(self.peek().kind, TokenKind::Extends) {
            // Conditional type: C extends T ? X : Y
            self.advance();
            let extends_type = match self.parse_type() {
                Some(t) => t,
                None => TypeAnn::Any,
            };
            if matches!(self.peek().kind, TokenKind::Question) {
                self.advance();
                let true_type = match self.parse_type() {
                    Some(t) => t,
                    None => TypeAnn::Any,
                };
                if matches!(self.peek().kind, TokenKind::Colon) {
                    self.advance();
                    let false_type = match self.parse_type() {
                        Some(t) => t,
                        None => TypeAnn::Any,
                    };
                    Some(
                        TypeAnn::Conditional {
                            check: Box::new(type_ann),
                            extends: Box::new(extends_type),
                            true_type: Box::new(true_type),
                            false_type: Box::new(false_type),
                        },
                    )
                } else {
                    Some(type_ann)
                }
            } else {
                Some(type_ann)
            }
        } else {
            Some(type_ann)
        }
    }

    /// A type without suffixes: a name, keyword or literal type, `typeof`,
    /// `keyof`, a template literal, a function type or an object type.
    pub fn parse_atom_type(&mut self) -> (t: Option<TypeAnn>)
        requires
            old(self).wf(),
        ensures
            old(self).step(*final(self)),
            t is Some ==> final(self).pos() > old(self).pos(),
            token_type(old(self).spec_peek().kind) matches Some(a) ==> t == Some(a)
                && final(self).pos() == old(self).pos() + 1,
            type_name_token(old(self).spec_peek().kind) matches Some(n) ==> (t matches Some(
                TypeAnn::TypeRef { name, type_args },
            ) && name == n && type_args@.len() == 0),
            old(self).spec_peek().kind is KeyOf ==> ({
                let nx = old(self).token_seq()[old(self).pos() + 1];
                token_type(nx.kind) matches Some(a) ==> t == Some(
                    TypeAnn::KeyOf { type_ann: Box::new(a) },
                ) && final(self).pos() == old(self).pos() + 2
            }),
            old(self).spec_peek().kind is TypeOf ==> ({
                let nx = old(self).token_seq()[old(self).pos() + 1];
                let after = old(self).token_seq()[old(self).pos() + 2];
                nx.kind matches TokenKind::Identifier(n) ==> (!(after.kind is Dot) ==> t == Some(
                    TypeAnn::Typeof {
                        argument: Box::new(Expression::Identifier { name: n, span: nx.span }),
                    },
                ) && final(self).pos() == old(self).pos() + 2)
            }),
            old(self).spec_peek().kind matches TokenKind::NoSubstitutionTemplate(q) ==> (t matches Some(
                TypeAnn::TemplateLiteral { quasis, types },
            ) && quasis@ == seq![q] && types@.len() == 0),
        decreases old(self).remaining(), 1int,
    {
        let ghost t0 = self.token_seq();
        let ghost o = self.pos();
        proof {
            if !(self.spec_peek().kind is Eof) {
                assert(self.peek_index() == o);
            }
        }
        let kind = self.peek().kind.clone();
        match kind {
            TokenKind::Identifier(name) => {
                self.advance();
                if string_is(&name, "number") {
                    Some(TypeAnn::Number)
                } else if string_is(&name, "string") {
                    Some(TypeAnn::String)
                } else if string_is(&name, "boolean") {
                    Some(TypeAnn::Boolean)
                } else if string_is(&name, "any") {
                    Some(TypeAnn::Any)
                } else if string_is(&name, "unknown") {
                    Some(TypeAnn::Unknown)
                } else if string_is(&name, "never") {
                    Some(TypeAnn::Never)
                } else if string_is(&name, "infer") {
                    // infer T — the next identifier names the type parameter
                    let k = self.peek().kind.clone();
                    let n = match k {
                        TokenKind::Identifier(n) => {
                            self.advance();
                            n
                        },
                        _ => {
                            let mut u = String::new();
                            u.push('_');
                            u
                        },
                    };
                    Some(TypeAnn::Infer { name: n })
                } else {
                    Some(TypeAnn::TypeRef { name, type_args: Vec::new() })
                }
            },
            TokenKind::Null => {
                self.advance();
                Some(TypeAnn::Null)
            },
            TokenKind::Undefined => {
                self.advance();
                Some(TypeAnn::Undefined)
            },
            TokenKind::Void => {
                self.advance();
                Some(TypeAnn::Void)
            },
            TokenKind::Number(n) => {
                self.advance();
                Some(TypeAnn::Literal { value: LiteralValue::Number(n) })
            },
            TokenKind::String(s) => {
                self.advance();
                Some(TypeAnn::Literal { value: LiteralValue::String(s) })
            },
            TokenKind::True => {
                self.advance();
                Some(TypeAnn::Literal { value: LiteralValue::Boolean(true) })
            },
            TokenKind::False => {
                self.advance();
                Some(TypeAnn::Literal { value: LiteralValue::Boolean(false) })
            },
            TokenKind::TypeOf => {
                self.advance();
                // Entity name path only (not a full expression)
                let mut name = String::new();
                proof {
                    if t0[o + 1].kind is Identifier {
                        assert(self.peek_index() == o + 1);
                    }
                }
                let k = self.peek().kind.clone();
                match k {
                    TokenKind::Identifier(n) => {
                        name = n;
                        self.advance();
                        proof {
                            assert(self.peek_index() == o + 2);
                        }
                    },
                    _ => {},
                }
                while matches!(self.peek().kind, TokenKind::Dot) && matches!(
                    self.peek_ahead(1).kind,
                    TokenKind::Identifier(_)
                )
                    invariant
                        old(self).step(*self),
                        self.pos() > old(self).pos(),
                        t0 == old(self).token_seq(),
                        o == old(self).pos(),
                        t0[o + 1].kind is Identifier && !(t0[o + 2].kind is Dot) ==> self.pos() == o
                            + 2 && name == t0[o + 1].kind->Identifier_0,
                    decreases self.remaining(),
                {
                    proof {
                        if t0[o + 1].kind is Identifier && !(t0[o + 2].kind is Dot) {
                            assert(self.peek_index() == o + 2);
                        }
                    }
                    self.advance();
                    let k2 = self.peek().kind.clone();
                    match k2 {
                        TokenKind::Identifier(part) => {
                            name.push('.');
                            name.push_str(part.as_str());
                            self.advance();
                        },
                        _ => {},
                    }
                }
                let idx = if self.cursor >= 1 {
                    self.cursor - 1
                } else {
                    0
                };
                let span = self.tokens[idx].span;
                Some(TypeAnn::Typeof { argument: Box::new(Expression::Identifier { name, span }) })
            },
            TokenKind::KeyOf => {
                self.advance();
                proof {
                    if token_type(t0[o + 1].kind) is Some {
                        assert(self.peek_index() == o + 1);
                    }
                }
                let inner = match self.parse_atom_type() {
                    Some(t) => t,
                    None => {
                        return None;
                    },
                };
                Some(TypeAnn::KeyOf { type_ann: Box::new(inner) })
            },
            TokenKind::NoSubstitutionTemplate(s) => {
                self.advance();
                let mut quasis: Vec<String> = Vec::new();
                quasis.push(s);
                Some(TypeAnn::TemplateLiteral { quasis, types: Vec::new() })
            },
            TokenKind::TemplateHead(s) => {
                self.advance();
                let mut quasis: Vec<String> = Vec::new();
                quasis.push(s);
                let mut types: Vec<TypeAnn> = Vec::new();
                loop
                    invariant
                        old(self).step(*self),
                        self.pos() > old(self).pos(),
                    decreases self.remaining(),
                {
                    match self.parse_type() {
                        Some(t) => types.push(t),
                        None => {},
                    }
                    let k = self.peek().kind.clone();
                    match k {
                        TokenKind::TemplateTail(t) => {
                            quasis.push(t);
                            self.advance();
                            break;
                        },
                        TokenKind::TemplateMiddle(t) => {
                            quasis.push(t);
                            self.advance();
                        },
                        _ => {
                            break;
                        },
                    }
                }
                Some(TypeAnn::TemplateLiteral { quasis, types })
            },
            TokenKind::OpenParen => {
                // Function type: (Type, Type) => ReturnType; otherwise the
                // cursor is put back and no type is parsed.
                let saved = self.cursor;
                self.advance();
                let mut params: Vec<TypeAnn> = Vec::new();
                let mut valid = true;
                while !matches!(self.peek().kind, TokenKind::CloseParen) && !self.is_at_end()
                    invariant
                        old(self).step(*self),
                        self.pos() > old(self).pos(),
                        saved == old(self).pos(),
                    decreases self.remaining(),
                {
                    match self.parse_type() {
                        Some(t) => params.push(t),
                        None => {
                            valid = false;
                            break;
                        },
                    }
                    if matches!(self.peek().kind, TokenKind::Comma) {
                        self.advance();
                    }
                }
                if valid && matches!(self.peek().kind, TokenKind::CloseParen) {
                    self.advance();
                    if matches!(self.peek().kind, TokenKind::Arrow) {
                        self.advance();
                        let return_type = match self.parse_type() {
                            Some(t) => t,
                            None => TypeAnn::Void,
                        };
                        return Some(
                            TypeAnn::Function { params, return_type: Box::new(return_type) },
                        );
                    }
                }
                self.cursor = saved;
                None
            },
            TokenKind::Function => {
                self.advance();
                self.expect(TokenKind::OpenParen);
                let mut params: Vec<TypeAnn> = Vec::new();
                while !matches!(self.peek().kind, TokenKind::CloseParen) && !self.is_at_end()
                    invariant
                        old(self).step(*self),
                        self.pos() > old(self).pos(),
                    decreases self.remaining(),
                {
                    let before = self.cursor;
                    match self.parse_type() {
                        Some(t) => params.push(t),
                        None => {},
                    }
                    if matches!(self.peek().kind, TokenKind::Comma) {
                        self.advance();
                    }
                    if self.cursor == before {
                        // Nothing was consumed: stop here instead of looping forever.
                        break;
                    }
                }
                self.expect(TokenKind::CloseParen);
                self.expect(TokenKind::Arrow);
                let return_type = match self.parse_type() {
                    Some(t) => t,
                    None => TypeAnn::Void,
                };
                Some(TypeAnn::Function { params, return_type: Box::new(return_type) })
            },
            TokenKind::OpenBrace => {
                self.advance();
                // Mapped type: { [K in keyof T]: V }
                if matches!(self.peek().kind, TokenKind::OpenBracket) {
                    match self.parse_mapped_type_rest() {
                        Some(mapped) => {
                            return Some(mapped);
                        },
                        None => {},
                    }
                }
                let mut properties: Vec<ObjectTypeProperty> = Vec::new();
                while !matches!(self.peek().kind, TokenKind::CloseBrace) && !self.is_at_end()
                    invariant
                        old(self).step(*self),
                        self.pos() > old(self).pos(),
                    decreases self.remaining(),
                {
                    let k = self.peek().kind.clone();
                    let name = match k {
                        TokenKind::Identifier(n) => n,
                        _ => {
                            break;
                        },
                    };
                    self.advance();
                    self.expect(TokenKind::Colon);
                    let type_ann = match self.parse_type() {
                        Some(t) => t,
                        None => TypeAnn::Any,
                    };
                    let span = self.peek().span;
                    properties.push(ObjectTypeProperty { name, type_ann, span });
                    if matches!(self.peek().kind, TokenKind::Comma) || matches!(
                        self.peek().kind,
                        TokenKind::Semicolon
                    ) {
                        self.advance();
                    }
                }
                self.expect(TokenKind::CloseBrace);
                Some(TypeAnn::Object { properties })
            },
            _ => None,
        }
    }

    /// The rest of a mapped type `[K in keyof T]: V }` after its `{`.
    pub fn parse_mapped_type_rest(&mut self) -> (t: Option<TypeAnn>)
        requires
            old(self).wf(),
        ensures
            old(self).step(*final(self)),
            !(old(self).spec_peek().kind is OpenBracket) ==> t is None && *final(self) == *old(self),
            t matches Some(m) ==> (m matches TypeAnn::Mapped { key, target, .. } && old(
                self,
            ).token_seq()[old(self).pos() + 1].kind == TokenKind::Identifier(key) && (*target matches TypeAnn::TypeRef {
                type_args,
                ..
            } && type_args@.len() == 0)),
        decreases old(self).remaining(), 0int,
    {
        proof {
            if old(self).spec_peek().kind is OpenBracket {
                assert(old(self).peek_index() == old(self).pos());
            }
        }
        if !matches!(self.peek().kind, TokenKind::OpenBracket) {
            return None;
        }
        self.advance();
        let k = self.peek().kind.clone();
        let key = match k {
            TokenKind::Identifier(n) => n,
            _ => {
                return None;
            },
        };
        self.advance();
        if !matches!(self.peek().kind, TokenKind::In) {
            return None;
        }
        self.advance();
        if matches!(self.peek().kind, TokenKind::KeyOf) {
            self.advance();
        }
        let k2 = self.peek().kind.clone();
        let target_name = match k2 {
            TokenKind::Identifier(n) => n,
            _ => {
                return None;
            },
        };
        self.advance();
        if !matches!(self.peek().kind, TokenKind::CloseBracket) {
            return None;
        }
        self.advance();
        if !matches!(self.peek().kind, TokenKind::Colon) {
            return None;
        }
        self.advance();
        let value = match self.parse_type() {
            Some(t) => t,
            None => {
                return None;
            },
        };
        if matches!(self.peek().kind, TokenKind::CloseBrace) {
            self.advance();
        }
        let target = TypeAnn::TypeRef { name: target_name, type_args: Vec::new() };
        Some(TypeAnn::Mapped { key, target: Box::new(target), value: Box::new(value) })
    }
}

} // verus!
