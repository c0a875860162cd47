//! The analyzed elements of an Angular workspace: components, directives,
//! pipes, modules, services, test specs and plain files, each with the
//! shared base information and the references later attached to it.

use vstd::prelude::*;

use crate::imports::ResolvedImport;
use crate::strutil::clone_string_vec;

verus! {

/// Copy a vector of resolved imports.
pub fn clone_imports(v: &Vec<ResolvedImport>) -> (r: Vec<ResolvedImport>)
    ensures
        r@ == v@,
{
    let mut out: Vec<ResolvedImport> = Vec::new();
    let mut i: usize = 0;
    while i < v.len()
        invariant
            0 <= i <= v@.len(),
            out@ == v@.take(i as int),
        decreases v@.len() - i,
    {
        out.push(v[i].clone());
        proof {
            assert(v@.take(i as int + 1) =~= v@.take(i as int) + seq![v@[i as int]]);
        }
        i += 1;
    }
    proof {
        assert(v@.take(v@.len() as int) =~= v@);
    }
    out
}

/// Who uses an element: keys of the elements that reference it from their
/// templates and from their imports.
pub struct NgReferences {
    pub used_by_template: Vec<String>,
    pub used_by_imports: Vec<String>,
}

impl NgReferences {
    pub open spec fn model(&self) -> (Seq<Seq<char>>, Seq<Seq<char>>) {
        (
            self.used_by_template@.map_values(|s: String| s@),
            self.used_by_imports@.map_values(|s: String| s@),
        )
    }

    pub fn new() -> (r: Self)
        ensures
            r.used_by_template@.len() == 0,
            r.used_by_imports@.len() == 0,
    {
        NgReferences { used_by_template: Vec::new(), used_by_imports: Vec::new() }
    }
}

impl Clone for NgReferences {
    fn clone(&self) -> (r: Self)
        ensures
            r.model() == self.model(),
    {
        NgReferences {
            used_by_template: clone_string_vec(&self.used_by_template),
            used_by_imports: clone_string_vec(&self.used_by_imports),
        }
    }
}

impl Default for NgReferences {
    fn default() -> (r: Self)
        ensures
            r.used_by_template@.len() == 0,
            r.used_by_imports@.len() == 0,
    {
        NgReferences::new()
    }
}

/// What a component's template uses: component selectors, pipe names and
/// directive names found in it.
pub struct TemplateUsage {
    pub components: Vec<String>,
    pub pipes: Vec<String>,
    pub directives: Vec<String>,
}

impl TemplateUsage {
    pub open spec fn model(&self) -> (Seq<String>, Seq<String>, Seq<String>) {
        (self.components@, self.pipes@, self.directives@)
    }

    pub fn new() -> (r: Self)
        ensures
            r.components@.len() == 0,
            r.pipes@.len() == 0,
            r.directives@.len() == 0,
    {
        TemplateUsage { components: Vec::new(), pipes: Vec::new(), directives: Vec::new() }
    }

    pub fn default() -> (r: Self)
        ensures
            r.components@.len() == 0,
            r.pipes@.len() == 0,
            r.directives@.len() == 0,
    {
        TemplateUsage::new()
    }
}

impl Clone for TemplateUsage {
    fn clone(&self) -> (r: Self)
        ensures
            r.model() == self.model(),
    {
        TemplateUsage {
            components: clone_string_vec(&self.components),
            pipes: clone_string_vec(&self.pipes),
            directives: clone_string_vec(&self.directives),
        }
    }
}

/// The contents of the shared base information.
pub struct NgBaseModel {
    pub name: String,
    pub imports: Seq<ResolvedImport>,
    pub source_path: String,
    pub relative_path: String,
    pub package_name: String,
    pub references: (Seq<Seq<char>>, Seq<Seq<char>>),
}

/// What every analyzed element carries: its name, resolved imports, where
/// it lives, and the references attached at the end of the analysis.
pub struct NgBaseInfo {
    pub name: String,
    pub imports: Vec<ResolvedImport>,
    pub source_path: String,
    pub relative_path: String,
    pub package_name: String,
    pub references: NgReferences,
}

impl NgBaseInfo {
    pub open spec fn model(&self) -> NgBaseModel {
        NgBaseModel {
            name: self.name,
            imports: self.imports@,
            source_path: self.source_path,
            relative_path: self.relative_path,
            package_name: self.package_name,
            references: self.references.model(),
        }
    }

    pub fn new(
        name: String,
        imports: Vec<ResolvedImport>,
        source_path: String,
        relative_path: String,
        package_name: String,
    ) -> (r: Self)
        ensures
            r.name == name,
            r.imports == imports,
            r.source_path == source_path,
            r.relative_path == relative_path,
            r.package_name == package_name,
            r.references.used_by_template@.len() == 0,
            r.references.used_by_imports@.len() == 0,
    {
        NgBaseInfo {
            name,
            imports,
            source_path,
            relative_path,
            package_name,
            references: NgReferences::new(),
        }
    }
}

impl Clone for NgBaseInfo {
    fn clone(&self) -> (r: Self)
        ensures
            r.model() == self.model(),
    {
        NgBaseInfo {
            name: self.name.clone(),
            imports: clone_imports(&self.imports),
            source_path: self.source_path.clone(),
            relative_path: self.relative_path.clone(),
            package_name: self.package_name.clone(),
            references: self.references.clone(),
        }
    }
}

/// The contents of a component record.
pub struct NgComponentModel {
    pub base: NgBaseModel,
    pub selector: String,
    pub template_path: String,
    pub style_paths: Seq<String>,
    pub standalone: bool,
    pub template_usages: (Seq<String>, Seq<String>, Seq<String>),
}

/// A component: selector, template and style locations, and what its
/// template uses.
pub struct NgComponentInfo {
    pub base: NgBaseInfo,
    pub selector: String,
    pub template_path: String,
    pub style_paths: Vec<String>,
    pub standalone: bool,
    pub template_usages: TemplateUsage,
}

impl NgComponentInfo {
    pub open spec fn model(&self) -> NgComponentModel {
        NgComponentModel {
            base: self.base.model(),
            selector: self.selector,
            template_path: self.template_path,
            style_paths: self.style_paths@,
            standalone: self.standalone,
            template_usages: self.template_usages.model(),
        }
    }

    pub fn new(
        name: String,
        selector: String,
        template_path: String,
        style_paths: Vec<String>,
        standalone: bool,
        imports: Vec<ResolvedImport>,
        source_path: String,
        relative_path: String,
        package_name: String,
    ) -> (r: Self)
        ensures
            r.base.name == name,
            r.base.imports == imports,
            r.base.source_path == source_path,
            r.base.relative_path == relative_path,
            r.base.package_name == package_name,
            r.selector == selector,
            r.template_path == template_path,
            r.style_paths == style_paths,
            r.standalone == standalone,
            r.template_usages.components@.len() == 0,
            r.template_usages.pipes@.len() == 0,
            r.template_usages.directives@.len() == 0,
    {
        NgComponentInfo {
            base: NgBaseInfo::new(name, imports, source_path, relative_path, package_name),
            selector,
            template_path,
            style_paths,
            standalone,
            template_usages: TemplateUsage::new(),
        }
    }
}

impl Clone for NgComponentInfo {
    fn clone(&self) -> (r: Self)
        ensures
            r.model() == self.model(),
    {
        NgComponentInfo {
            base: self.base.clone(),
            selector: self.selector.clone(),
            template_path: self.template_path.clone(),
            style_paths: clone_string_vec(&self.style_paths),
            standalone: self.standalone,
            template_usages: self.template_usages.clone(),
        }
    }
}

/// The contents of a directive record.
pub struct NgDirectiveModel {
    pub base: NgBaseModel,
    pub selector: String,
    pub standalone: bool,
    pub host_bindings: Seq<String>,
    pub host_listeners: Seq<String>,
}

/// A directive: selector, standalone flag and host metadata.
pub struct NgDirectiveInfo {
    pub base: NgBaseInfo,
    pub selector: String,
    pub standalone: bool,
    pub host_bindings: Vec<String>,
    pub host_listeners: Vec<String>,
}

impl NgDirectiveInfo {
    pub open spec fn model(&self) -> NgDirectiveModel {
        NgDirectiveModel {
            base: self.base.model(),
            selector: self.selector,
            standalone: self.standalone,
            host_bindings: self.host_bindings@,
            host_listeners: self.host_listeners@,
        }
    }

    pub fn new(
        class_name: String,
        selector: String,
        standalone: bool,
        host_bindings: Vec<String>,
        host_listeners: Vec<String>,
        imports: Vec<ResolvedImport>,
        source_path: String,
        relative_path: String,
        package_name: String,
    ) -> (r: Self)
        ensures
            r.base.name == class_name,
            r.base.imports == imports,
            r.base.source_path == source_path,
            r.base.relative_path == relative_path,
            r.base.package_name == package_name,
            r.selector == selector,
            r.standalone == standalone,
            r.host_bindings == host_bindings,
            r.host_listeners == host_listeners,
    {
        NgDirectiveInfo {
            base: NgBaseInfo::new(class_name, imports, source_path, relative_path, package_name),
            selector,
            standalone,
            host_bindings,
            host_listeners,
        }
    }
}

impl Clone for NgDirectiveInfo {
    fn clone(&self) -> (r: Self)
        ensures
            r.model() == self.model(),
    {
        NgDirectiveInfo {
            base: self.base.clone(),
            selector: self.selector.clone(),
            standalone: self.standalone,
            host_bindings: clone_string_vec(&self.host_bindings),
            host_listeners: clone_string_vec(&self.host_listeners),
        }
    }
}

/// The contents of a pipe record.
pub struct NgPipeModel {
    pub base: NgBaseModel,
    pub name: String,
    pub pure: bool,
    pub standalone: bool,
}

/// A pipe: its template name and purity.
pub struct NgPipeInfo {
    pub base: NgBaseInfo,
    pub name: String,
    pub pure: bool,
    pub standalone: bool,
}

impl NgPipeInfo {
    pub open spec fn model(&self) -> NgPipeModel {
        NgPipeModel {
            base: self.base.model(),
            name: self.name,
            pure: self.pure,
            standalone: self.standalone,
        }
    }

    pub fn new(
        class_name: String,
        name: String,
        pure: bool,
        standalone: bool,
        imports: Vec<ResolvedImport>,
        source_path: String,
        relative_path: String,
        package_name: String,
    ) -> (r: Self)
        ensures
            r.base.name == class_name,
            r.base.imports == imports,
            r.base.source_path == source_path,
            r.base.relative_path == relative_path,
            r.base.package_name == package_name,
            r.name == name,
            r.pure == pure,
            r.standalone == standalone,
    {
        NgPipeInfo {
            base: NgBaseInfo::new(class_name, imports, source_path, relative_path, package_name),
            name,
            pure,
            standalone,
        }
    }
}

impl Clone for NgPipeInfo {
    fn clone(&self) -> (r: Self)
        ensures
            r.model() == self.model(),
    {
        NgPipeInfo {
            base: self.base.clone(),
            name: self.name.clone(),
            pure: self.pure,
            standalone: self.standalone,
        }
    }
}

/// The contents of a module record.
pub struct NgModuleModel {
    pub base: NgBaseModel,
    pub declarations: Seq<String>,
    pub exports: Seq<String>,
    pub providers: Seq<String>,
    pub bootstrap: Seq<String>,
}

/// A module: what it declares, exports, provides and bootstraps.
pub struct NgModuleInfo {
    pub base: NgBaseInfo,
    pub declarations: Vec<String>,
    pub exports: Vec<String>,
    pub providers: Vec<String>,
    pub bootstrap: Vec<String>,
}

impl NgModuleInfo {
    pub open spec fn model(&self) -> NgModuleModel {
        NgModuleModel {
            base: self.base.model(),
            declarations: self.declarations@,
            exports: self.exports@,
            providers: self.providers@,
            bootstrap: self.bootstrap@,
        }
    }

    pub fn new(
        class_name: String,
        declarations: Vec<String>,
        exports: Vec<String>,
        providers: Vec<String>,
        source_path: String,
        relative_path: String,
        package_name: String,
    ) -> (r: Self)
        ensures
            r.base.name == class_name,
            r.base.imports@.len() == 0,
            r.base.source_path == source_path,
            r.base.relative_path == relative_path,
            r.base.package_name == package_name,
            r.declarations == declarations,
            r.exports == exports,
            r.providers == providers,
            r.bootstrap@.len() == 0,
    {
        NgModuleInfo {
            base: NgBaseInfo::new(class_name, Vec::new(), source_path, relative_path, package_name),
            declarations,
            exports,
            providers,
            bootstrap: Vec::new(),
        }
    }
}

impl Clone for NgModuleInfo {
    fn clone(&self) -> (r: Self)
        ensures
            r.model() == self.model(),
    {
        NgModuleInfo {
            base: self.base.clone(),
            declarations: clone_string_vec(&self.declarations),
            exports: clone_string_vec(&self.exports),
            providers: clone_string_vec(&self.providers),
            bootstrap: clone_string_vec(&self.bootstrap),
        }
    }
}

/// The contents of a service record.
pub struct NgServiceModel {
    pub base: NgBaseModel,
    pub provided_in: String,
}

/// A service and where it is provided.
pub struct NgServiceInfo {
    pub base: NgBaseInfo,
    pub provided_in: String,
}

impl NgServiceInfo {
    pub open spec fn model(&self) -> NgServiceModel {
        NgServiceModel { base: self.base.model(), provided_in: self.provided_in }
    }

    pub fn new(
        class_name: String,
        provided_in: String,
        imports: Vec<ResolvedImport>,
        source_path: String,
        relative_path: String,
        package_name: String,
    ) -> (r: Self)
        ensures
            r.base.name == class_name,
            r.base.imports == imports,
            r.base.source_path == source_path,
            r.base.relative_path == relative_path,
            r.base.package_name == package_name,
            r.provided_in == provided_in,
    {
        NgServiceInfo {
            base: NgBaseInfo::new(class_name, imports, source_path, relative_path, package_name),
            provided_in,
        }
    }
}

impl Clone for NgServiceInfo {
    fn clone(&self) -> (r: Self)
        ensures
            r.model() == self.model(),
    {
        NgServiceInfo { base: self.base.clone(), provided_in: self.provided_in.clone() }
    }
}

/// A file with analyzed imports but no recognized decorator.
pub struct NgOtherInfo {
    pub base: NgBaseInfo,
}

impl NgOtherInfo {
    pub open spec fn model(&self) -> NgBaseModel {
        self.base.model()
    }

    pub fn new(
        name: String,
        imports: Vec<ResolvedImport>,
        source_path: String,
        relative_path: String,
        package_name: String,
    ) -> (r: Self)
        ensures
            r.base.name == name,
            r.base.imports == imports,
            r.base.source_path == source_path,
            r.base.relative_path == relative_path,
            r.base.package_name == package_name,
    {
        NgOtherInfo {
            base: NgBaseInfo::new(name, imports, source_path, relative_path, package_name),
        }
    }
}

impl Clone for NgOtherInfo {
    fn clone(&self) -> (r: Self)
        ensures
            r.model() == self.model(),
    {
        NgOtherInfo { base: self.base.clone() }
    }
}

/// A test spec file.
pub struct NgTestSpecInfo {
    pub base: NgBaseInfo,
}

impl NgTestSpecInfo {
    pub open spec fn model(&self) -> NgBaseModel {
        self.base.model()
    }

    pub fn new(
        name: String,
        imports: Vec<ResolvedImport>,
        source_path: String,
        relative_path: String,
        package_name: String,
    ) -> (r: Self)
        ensures
            r.base.name == name,
            r.base.imports == imports,
            r.base.source_path == source_path,
            r.base.relative_path == relative_path,
            r.base.package_name == package_name,
    {
        NgTestSpecInfo {
            base: NgBaseInfo::new(name, imports, source_path, relative_path, package_name),
        }
    }
}

impl Clone for NgTestSpecInfo {
    fn clone(&self) -> (r: Self)
        ensures
            r.model() == self.model(),
    {
        NgTestSpecInfo { base: self.base.clone() }
    }
}

/// Any analyzed element, tagged by its kind.
pub enum NgElement {
    Component(NgComponentInfo),
    Directive(NgDirectiveInfo),
    Pipe(NgPipeInfo),
    Module(NgModuleInfo),
    Service(NgServiceInfo),
    TestSpec(NgTestSpecInfo),
    Other(NgOtherInfo),
}

impl Clone for NgElement {
    fn clone(&self) -> (r: Self)
        ensures
            r.get_base_spec().model() == self.get_base_spec().model(),
            r is Component <==> self is Component,
            r is Directive <==> self is Directive,
            r is Pipe <==> self is Pipe,
            r is Module <==> self is Module,
            r is Service <==> self is Service,
            r is TestSpec <==> self is TestSpec,
            r is Other <==> self is Other,
    {
        match self {
            NgElement::Component(c) => NgElement::Component(c.clone()),
            NgElement::Directive(d) => NgElement::Directive(d.clone()),
            NgElement::Pipe(p) => NgElement::Pipe(p.clone()),
            NgElement::Module(m) => NgElement::Module(m.clone()),
            NgElement::Service(s) => NgElement::Service(s.clone()),
            NgElement::TestSpec(t) => NgElement::TestSpec(t.clone()),
            NgElement::Other(o) => NgElement::Other(o.clone()),
        }
    }
}

impl NgElement {
    /// The base information of whatever element this is.
    pub open spec fn get_base_spec(&self) -> NgBaseInfo {
        match self {
            NgElement::Component(c) => c.base,
            NgElement::Directive(d) => d.base,
            NgElement::Pipe(p) => p.base,
            NgElement::Module(m) => m.base,
            NgElement::Service(s) => s.base,
            NgElement::TestSpec(t) => t.base,
            NgElement::Other(o) => o.base,
        }
    }

    pub fn get_base(&self) -> (r: &NgBaseInfo)
        ensures
            *r == self.get_base_spec(),
    {
        match self {
            NgElement::Component(c) => &c.base,
            NgElement::Directive(d) => &d.base,
            NgElement::Pipe(p) => &p.base,
            NgElement::Module(m) => &m.base,
            NgElement::Service(s) => &s.base,
            NgElement::TestSpec(t) => &t.base,
            NgElement::Other(o) => &o.base,
        }
    }

    pub fn get_base_mut(&mut self) -> (r: &mut NgBaseInfo)
        ensures
            *r == old(self).get_base_spec(),
            final(self).get_base_spec() == *final(r),
            (*final(self)) is Component <==> (*old(self)) is Component,
            (*final(self)) is Directive <==> (*old(self)) is Directive,
            (*final(self)) is Pipe <==> (*old(self)) is Pipe,
            (*final(self)) is Module <==> (*old(self)) is Module,
            (*final(self)) is Service <==> (*old(self)) is Service,
            (*final(self)) is TestSpec <==> (*old(self)) is TestSpec,
            (*final(self)) is Other <==> (*old(self)) is Other,
    {
        match self {
            NgElement::Component(c) => &mut c.base,
            NgElement::Directive(d) => &mut d.base,
            NgElement::Pipe(p) => &mut p.base,
            NgElement::Module(m) => &mut m.base,
            NgElement::Service(s) => &mut s.base,
            NgElement::TestSpec(t) => &mut t.base,
            NgElement::Other(o) => &mut o.base,
        }
    }

    pub fn get_name(&self) -> (r: &str)
        ensures
            r@ == self.get_base_spec().name@,
    {
        self.get_base().name.as_str()
    }

    pub fn get_path(&self) -> (r: &String)
        ensures
            *r == self.get_base_spec().source_path,
    {
        &self.get_base().source_path
    }

    pub fn get_imports(&self) -> (r: &Vec<ResolvedImport>)
        ensures
            *r == self.get_base_spec().imports,
    {
        &self.get_base().imports
    }

    pub fn get_relative_path(&self) -> (r: &str)
        ensures
            r@ == self.get_base_spec().relative_path@,
    {
        self.get_base().relative_path.as_str()
    }

    pub fn get_package_name(&self) -> (r: &str)
        ensures
            r@ == self.get_base_spec().package_name@,
    {
        self.get_base().package_name.as_str()
    }

    pub fn is_component(&self) -> (r: bool)
        ensures
            r == (self is Component),
    {
        matches!(self, NgElement::Component(_))
    }

    pub fn is_directive(&self) -> (r: bool)
        ensures
            r == (self is Directive),
    {
        matches!(self, NgElement::Directive(_))
    }

    pub fn is_pipe(&self) -> (r: bool)
        ensures
            r == (self is Pipe),
    {
        matches!(self, NgElement::Pipe(_))
    }

    pub fn is_module(&self) -> (r: bool)
        ensures
            r == (self is Module),
    {
        matches!(self, NgElement::Module(_))
    }

    pub fn is_service(&self) -> (r: bool)
        ensures
            r == (self is Service),
    {
        matches!(self, NgElement::Service(_))
    }

    pub fn as_component(&self) -> (r: Option<&NgComponentInfo>)
        ensures
            match r {
                Some(c) => self is Component && *c == self->Component_0,
                None => !(self is Component),
            },
    {
        match self {
            NgElement::Component(c) => Some(c),
            _ => None,
        }
    }

    pub fn as_directive(&self) -> (r: Option<&NgDirectiveInfo>)
        ensures
            match r {
                Some(d) => self is Directive && *d == self->Directive_0,
                None => !(self is Directive),
            },
    {
        match self {
            NgElement::Directive(d) => Some(d),
            _ => None,
        }
    }

    pub fn as_pipe(&self) -> (r: Option<&NgPipeInfo>)
        ensures
            match r {
                Some(p) => self is Pipe && *p == self->Pipe_0,
                None => !(self is Pipe),
            },
    {
        match self {
            NgElement::Pipe(p) => Some(p),
            _ => None,
        }
    }

    pub fn as_module(&self) -> (r: Option<&NgModuleInfo>)
        ensures
            match r {
                Some(m) => self is Module && *m == self->Module_0,
                None => !(self is Module),
            },
    {
        match self {
            NgElement::Module(m) => Some(m),
            _ => None,
        }
    }

    pub fn as_service(&self) -> (r: Option<&NgServiceInfo>)
        ensures
            match r {
                Some(s) => self is Service && *s == self->Service_0,
                None => !(self is Service),
            },
    {
        match self {
            NgElement::Service(s) => Some(s),
            _ => None,
        }
    }
}

} // verus!
