//! Which local identifiers stand for the markdown tag.
use vstd::prelude::*;
use crate::config::PluginConfig;

verus! {

/// An identifier: its text, and the syntax context that name resolution gave it.
/// Two identifiers with the same text but different contexts are different bindings;
/// a host that does not resolve names gives every identifier the same context.
pub struct Ident {
    pub sym: String,
    pub ctxt: u32,
}

impl View for Ident {
    type V = (Seq<char>, u32);

    open spec fn view(&self) -> (Seq<char>, u32) {
        (self.sym@, self.ctxt)
    }
}

impl Clone for Ident {
    fn clone(&self) -> (r: Self)
        ensures
            r@ == self@,
    {
        Ident { sym: self.sym.clone(), ctxt: self.ctxt }
    }
}

/// One specifier of an import declaration.
pub enum ImportSpecifier {
    /// `{ imported as local }`, or `{ local }` where `imported` is `None`.
    Named { local: Ident, imported: Option<String> },
    /// `import local from ...`.
    Default(Ident),
    /// `import * as local from ...`.
    Namespace(Ident),
}

pub struct ImportDecl {
    pub type_only: bool,
    pub src: String,
    pub specifiers: Vec<ImportSpecifier>,
}

/// The module that exports the tag.
pub open spec fn tag_module() -> Seq<char> {
    "tagged-md"@
}

/// The name under which the module exports the tag.
pub open spec fn tag_export() -> Seq<char> {
    "md"@
}

/// The exported name that a specifier imports.
pub open spec fn imported_name(local: Ident, imported: Option<String>) -> Seq<char> {
    match imported {
        Some(name) => name@,
        None => local.sym@,
    }
}

/// The local bindings of the tag that the specifiers introduce, in order.
pub open spec fn specifier_tags(specs: Seq<ImportSpecifier>) -> Seq<(Seq<char>, u32)>
    decreases specs.len(),
{
    if specs.len() == 0 {
        Seq::empty()
    } else {
        let front = specifier_tags(specs.drop_last());
        match specs.last() {
            ImportSpecifier::Named { local, imported } => if imported_name(local, imported)
                == tag_export() {
                front.push(local@)
            } else {
                front
            },
            _ => front,
        }
    }
}

/// The local bindings of the tag that an import declaration introduces.
pub open spec fn decl_tags(decl: ImportDecl) -> Seq<(Seq<char>, u32)> {
    if !decl.type_only && decl.src@ == tag_module() {
        specifier_tags(decl.specifiers@)
    } else {
        Seq::empty()
    }
}

/// The transform's state over one compilation unit: the configuration it was given and
/// the bindings of the tag seen so far.
pub struct TransformVisitor {
    pub config: PluginConfig,
    pub tag_idents: Vec<Ident>,
}

impl TransformVisitor {
    pub open spec fn tags(&self) -> Seq<(Seq<char>, u32)> {
        self.tag_idents@.map_values(|i: Ident| i@)
    }

    pub fn new(config: PluginConfig) -> (r: Self)
        ensures
            r.config@ == config@,
            r.tags() == Seq::<(Seq<char>, u32)>::empty(),
    {
        let r = TransformVisitor { config, tag_idents: Vec::new() };
        assert(r.tags() =~= Seq::<(Seq<char>, u32)>::empty());
        r
    }

    /// Records the bindings of the tag that `decl` introduces.
    pub fn visit_mut_import_decl(&mut self, decl: &ImportDecl)
        ensures
            final(self).config@ == old(self).config@,
            final(self).tags() == old(self).tags() + decl_tags(*decl),
    {
        let module = "tagged-md".to_owned();
        let export = "md".to_owned();
        if decl.type_only || decl.src != module {
            assert(old(self).tags() + decl_tags(*decl) =~= old(self).tags());
            return;
        }
        let ghost start = self.tags();
        let mut k: usize = 0;
        assert(decl.specifiers@.take(0) =~= Seq::<ImportSpecifier>::empty());
        assert(start + specifier_tags(Seq::<ImportSpecifier>::empty()) =~= start);
        while k < decl.specifiers.len()
            invariant
                k <= decl.specifiers.len(),
                export@ == tag_export(),
                self.config@ == old(self).config@,
                self.tags() == start + specifier_tags(decl.specifiers@.take(k as int)),
            decreases decl.specifiers.len() - k,
        {
            let ghost front = decl.specifiers@.take(k as int);
            assert(decl.specifiers@.take(k + 1).drop_last() =~= front);
            assert(decl.specifiers@.take(k + 1).last() == decl.specifiers@[k as int]);
            match &decl.specifiers[k] {
                ImportSpecifier::Named { local, imported } => {
                    let is_tag = match imported {
                        Some(name) => *name == export,
                        None => local.sym == export,
                    };
                    if is_tag {
                        let ghost before = self.tags();
                        self.tag_idents.push(local.clone());
                        assert(self.tags() =~= before.push(local@));
                    }
                },
                _ => {},
            }
            k = k + 1;
        }
        assert(decl.specifiers@.take(decl.specifiers.len() as int) =~= decl.specifiers@);
    }

    /// Whether a recorded binding of the tag has the text `sym`, whatever its context: the
    /// check for hosts that do not resolve names, which cannot see shadowing.
    pub fn is_tag_name(&self, sym: &String) -> (r: bool)
        ensures
            r == exists|i: int| 0 <= i < self.tags().len() && (#[trigger] self.tags()[i]).0 == sym@,
    {
        let mut k: usize = 0;
        while k < self.tag_idents.len()
            invariant
                k <= self.tag_idents.len(),
                forall|j: int| 0 <= j < k ==> (#[trigger] self.tags()[j]).0 != sym@,
            decreases self.tag_idents.len() - k,
        {
            if self.tag_idents[k].sym == *sym {
                assert(self.tags()[k as int].0 == sym@);
                return true;
            }
            k = k + 1;
        }
        false
    }

    /// Whether `ident` is one of the recorded bindings of the tag.
    pub fn is_tag(&self, ident: &Ident) -> (r: bool)
        ensures
            r == self.tags().contains(ident@),
    {
        let mut k: usize = 0;
        while k < self.tag_idents.len()
            invariant
                k <= self.tag_idents.len(),
                forall|j: int| 0 <= j < k ==> self.tags()[j] != ident@,
            decreases self.tag_idents.len() - k,
        {
            let t = &self.tag_idents[k];
            if t.ctxt == ident.ctxt && t.sym == ident.sym {
                assert(self.tags()[k as int] == ident@);
                return true;
            }
            k = k + 1;
        }
        false
    }
}

} // verus!
