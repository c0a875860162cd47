//! Turning an analyzed decorator into an element record: the property
//! lookups and the per-decorator analyzers, dispatched by decorator name.
//!
//! A decorator's argument object is modeled as a list of named property
//! values, extracted from the syntax tree by the caller.

use vstd::prelude::*;

use crate::imports::ResolvedImport;
use crate::ng_models::{
    clone_imports, NgComponentInfo, NgDirectiveInfo, NgModuleInfo, NgPipeInfo, NgServiceInfo,
};
use crate::ng_results::NgAnalysisResults;
use crate::ng_template::{spec_components, spec_directives, spec_pipes, TemplateParser};
use crate::paths::{get_relative_path, parent_dir, path_join, spec_join, spec_parent,
    spec_relative_path};
use crate::strutil::{clone_string_vec, str_eq, str_seq_set};


verus! {

broadcast use vstd::string::group_string_axioms;

/// One property value of a decorator's argument object.
pub enum PropValue {
    /// A string literal.
    Str(String),
    /// A boolean literal.
    Truth(bool),
    /// An array of string literals.
    StrArray(Vec<String>),
    /// An array of identifiers.
    IdentArray(Vec<String>),
    /// A nested object literal: the string-literal values it holds.
    Obj(Vec<String>),
    /// Anything else.
    Other,
}

/// A decorator's argument object: named properties in source order.
pub struct DecoratorProps {
    pub props: Vec<(String, PropValue)>,
}

/// A decorator reduced to its name and argument object.
pub struct DecoratorAnalysis {
    pub name: String,
    pub raw_props: Option<DecoratorProps>,
}

/// The first string-literal property under `name`.
pub open spec fn spec_string_prop(props: Seq<(String, PropValue)>, name: Seq<char>) -> Option<
    Seq<char>,
>
    decreases props.len(),
{
    if props.len() == 0 {
        None
    } else if props[0].0@ == name && props[0].1 is Str {
        Some(props[0].1->Str_0@)
    } else {
        spec_string_prop(props.skip(1), name)
    }
}

/// The first boolean property under `name`.
pub open spec fn spec_bool_prop(props: Seq<(String, PropValue)>, name: Seq<char>) -> Option<bool>
    decreases props.len(),
{
    if props.len() == 0 {
        None
    } else if props[0].0@ == name && props[0].1 is Truth {
        Some(props[0].1->Truth_0)
    } else {
        spec_bool_prop(props.skip(1), name)
    }
}

/// The first string-array property under `name` (empty when absent).
pub open spec fn spec_string_array_prop(props: Seq<(String, PropValue)>, name: Seq<char>) -> Seq<
    String,
>
    decreases props.len(),
{
    if props.len() == 0 {
        Seq::empty()
    } else if props[0].0@ == name && props[0].1 is StrArray {
        props[0].1->StrArray_0@
    } else {
        spec_string_array_prop(props.skip(1), name)
    }
}

/// The first identifier-array property under `name` (empty when absent).
pub open spec fn spec_ident_array_prop(props: Seq<(String, PropValue)>, name: Seq<char>) -> Seq<
    String,
>
    decreases props.len(),
{
    if props.len() == 0 {
        Seq::empty()
    } else if props[0].0@ == name && props[0].1 is IdentArray {
        props[0].1->IdentArray_0@
    } else {
        spec_ident_array_prop(props.skip(1), name)
    }
}

/// The string values of the first nested object under `name` (empty when
/// absent).
pub open spec fn spec_obj_values_prop(props: Seq<(String, PropValue)>, name: Seq<char>) -> Seq<
    String,
>
    decreases props.len(),
{
    if props.len() == 0 {
        Seq::empty()
    } else if props[0].0@ == name && props[0].1 is Obj {
        props[0].1->Obj_0@
    } else {
        spec_obj_values_prop(props.skip(1), name)
    }
}

/// Property lookups over a decorator's argument object.
pub struct DecoratorAnalyzer;

impl DecoratorAnalyzer {
    /// The first string-literal property under `prop_name`.
    #[verifier::loop_isolation(false)]
    pub fn get_string_prop(obj: &DecoratorProps, prop_name: &str) -> (r: Option<String>)
        ensures
            match r {
                Some(v) => spec_string_prop(obj.props@, prop_name@) == Some(v@),
                None => spec_string_prop(obj.props@, prop_name@) is None,
            },
    {
        let mut i: usize = 0;
        proof {
            assert(obj.props@.skip(0) =~= obj.props@);
        }
        while i < obj.props.len()
            invariant
                0 <= i <= obj.props@.len(),
                spec_string_prop(obj.props@.skip(i as int), prop_name@) == spec_string_prop(
                    obj.props@,
                    prop_name@,
                ),
            decreases obj.props@.len() - i,
        {
            proof {
                assert(obj.props@.skip(i as int)[0] == obj.props@[i as int]);
                assert(obj.props@.skip(i as int).skip(1) =~= obj.props@.skip(i as int + 1));
            }
            let (k, v) = &obj.props[i];
            if str_eq(k.as_str(), prop_name) {
                match v {
                    PropValue::Str(s) => {
                        return Some(s.clone());
                    },
                    _ => {},
                }
            }
            i += 1;
        }
        proof {
            assert(obj.props@.skip(obj.props@.len() as int) =~= Seq::<(String, PropValue)>::empty());
        }
        None
    }

    /// The first boolean property under `prop_name`.
    #[verifier::loop_isolation(false)]
    pub fn get_bool_prop(obj: &DecoratorProps, prop_name: &str) -> (r: Option<bool>)
        ensures
            r == spec_bool_prop(obj.props@, prop_name@),
    {
        let mut i: usize = 0;
        proof {
            assert(obj.props@.skip(0) =~= obj.props@);
        }
        while i < obj.props.len()
            invariant
                0 <= i <= obj.props@.len(),
                spec_bool_prop(obj.props@.skip(i as int), prop_name@) == spec_bool_prop(
                    obj.props@,
                    prop_name@,
                ),
            decreases obj.props@.len() - i,
        {
            proof {
                assert(obj.props@.skip(i as int)[0] == obj.props@[i as int]);
                assert(obj.props@.skip(i as int).skip(1) =~= obj.props@.skip(i as int + 1));
            }
            let (k, v) = &obj.props[i];
            if str_eq(k.as_str(), prop_name) {
                match v {
                    PropValue::Truth(b) => {
                        return Some(*b);
                    },
                    _ => {},
                }
            }
            i += 1;
        }
        proof {
            assert(obj.props@.skip(obj.props@.len() as int) =~= Seq::<(String, PropValue)>::empty());
        }
        None
    }

    /// The first string-array property under `prop_name`, or nothing.
    #[verifier::loop_isolation(false)]
    pub fn get_string_array_prop(obj: &DecoratorProps, prop_name: &str) -> (r: Vec<String>)
        ensures
            r@ == spec_string_array_prop(obj.props@, prop_name@),
    {
        let mut i: usize = 0;
        proof {
            assert(obj.props@.skip(0) =~= obj.props@);
        }
        while i < obj.props.len()
            invariant
                0 <= i <= obj.props@.len(),
                spec_string_array_prop(obj.props@.skip(i as int), prop_name@)
                    == spec_string_array_prop(obj.props@, prop_name@),
            decreases obj.props@.len() - i,
        {
            proof {
                assert(obj.props@.skip(i as int)[0] == obj.props@[i as int]);
                assert(obj.props@.skip(i as int).skip(1) =~= obj.props@.skip(i as int + 1));
            }
            let (k, v) = &obj.props[i];
            if str_eq(k.as_str(), prop_name) {
                match v {
                    PropValue::StrArray(a) => {
                        return clone_string_vec(a);
                    },
                    _ => {},
                }
            }
            i += 1;
        }
        proof {
            assert(obj.props@.skip(obj.props@.len() as int) =~= Seq::<(String, PropValue)>::empty());
        }
        Vec::new()
    }

    /// The first identifier-array property under `prop_name`, or nothing.
    #[verifier::loop_isolation(false)]
    pub fn get_ident_array_prop(obj: &DecoratorProps, prop_name: &str) -> (r: Vec<String>)
        ensures
            r@ == spec_ident_array_prop(obj.props@, prop_name@),
    {
        let mut i: usize = 0;
        proof {
            assert(obj.props@.skip(0) =~= obj.props@);
        }
        while i < obj.props.len()
            invariant
                0 <= i <= obj.props@.len(),
                spec_ident_array_prop(obj.props@.skip(i as int), prop_name@)
                    == spec_ident_array_prop(obj.props@, prop_name@),
            decreases obj.props@.len() - i,
        {
            proof {
                assert(obj.props@.skip(i as int)[0] == obj.props@[i as int]);
                assert(obj.props@.skip(i as int).skip(1) =~= obj.props@.skip(i as int + 1));
            }
            let (k, v) = &obj.props[i];
            if str_eq(k.as_str(), prop_name) {
                match v {
                    PropValue::IdentArray(a) => {
                        return clone_string_vec(a);
                    },
                    _ => {},
                }
            }
            i += 1;
        }
        proof {
            assert(obj.props@.skip(obj.props@.len() as int) =~= Seq::<(String, PropValue)>::empty());
        }
        Vec::new()
    }

    /// The string values of the first nested object under `prop_name`.
    #[verifier::loop_isolation(false)]
    pub fn get_obj_values_prop(obj: &DecoratorProps, prop_name: &str) -> (r: Vec<String>)
        ensures
            r@ == spec_obj_values_prop(obj.props@, prop_name@),
    {
        let mut i: usize = 0;
        proof {
            assert(obj.props@.skip(0) =~= obj.props@);
        }
        while i < obj.props.len()
            invariant
                0 <= i <= obj.props@.len(),
                spec_obj_values_prop(obj.props@.skip(i as int), prop_name@)
                    == spec_obj_values_prop(obj.props@, prop_name@),
            decreases obj.props@.len() - i,
        {
            proof {
                assert(obj.props@.skip(i as int)[0] == obj.props@[i as int]);
                assert(obj.props@.skip(i as int).skip(1) =~= obj.props@.skip(i as int + 1));
            }
            let (k, v) = &obj.props[i];
            if str_eq(k.as_str(), prop_name) {
                match v {
                    PropValue::Obj(a) => {
                        return clone_string_vec(a);
                    },
                    _ => {},
                }
            }
            i += 1;
        }
        proof {
            assert(obj.props@.skip(obj.props@.len() as int) =~= Seq::<(String, PropValue)>::empty());
        }
        Vec::new()
    }
}

/// The path a component's template lives at: the template location joined
/// onto the component file's directory.
pub fn template_file_path(file_path: &str, template_path: &str) -> (r: Option<String>)
    ensures
        match r {
            Some(p) => spec_parent(file_path@) is Some && p@ == spec_join(
                spec_parent(file_path@)->Some_0,
                template_path@,
            ),
            None => spec_parent(file_path@) is None,
        },
{
    match parent_dir(file_path) {
        Some(parent) => Some(path_join(parent.as_str(), template_path)),
        None => None,
    }
}

/// Builds a pipe record from a `Pipe` decorator.
pub struct NgPipeAnalyzer;

impl NgPipeAnalyzer {
    /// A record for a `Pipe` decorator carrying properties; anything else
    /// analyzes to nothing.
    pub fn analyze(
        analysis: &DecoratorAnalysis,
        file_path: &str,
        base_path: &str,
        class_name: &str,
        package_name: &String,
        imports: Vec<ResolvedImport>,
    ) -> (r: Option<NgPipeInfo>)
        ensures
            match r {
                Some(pipe) => {
                    &&& analysis.name@ == "Pipe"@
                    &&& analysis.raw_props is Some
                    &&& pipe.base.name@ == class_name@
                    &&& pipe.base.imports@ == imports@
                    &&& pipe.base.source_path@ == file_path@
                    &&& pipe.base.relative_path@ == spec_relative_path(file_path@, base_path@)
                    &&& pipe.base.package_name@ == package_name@
                    &&& pipe.name@ == (match spec_string_prop(
                        analysis.raw_props->Some_0.props@,
                        "name"@,
                    ) {
                        Some(v) => v,
                        None => Seq::<char>::empty(),
                    })
                    &&& pipe.pure == (match spec_bool_prop(
                        analysis.raw_props->Some_0.props@,
                        "pure"@,
                    ) {
                        Some(b) => b,
                        None => true,
                    })
                    &&& pipe.standalone == (match spec_bool_prop(
                        analysis.raw_props->Some_0.props@,
                        "standalone"@,
                    ) {
                        Some(b) => b,
                        None => false,
                    })
                },
                None => analysis.name@ != "Pipe"@ || analysis.raw_props is None,
            },
    {
        if !str_eq(analysis.name.as_str(), "Pipe") {
            return None;
        }
        let props = match &analysis.raw_props {
            Some(p) => p,
            None => {
                return None;
            },
        };
        let name = match DecoratorAnalyzer::get_string_prop(props, "name") {
            Some(v) => v,
            None => String::new(),
        };
        let pure = match DecoratorAnalyzer::get_bool_prop(props, "pure") {
            Some(b) => b,
            None => true,
        };
        let standalone = match DecoratorAnalyzer::get_bool_prop(props, "standalone") {
            Some(b) => b,
            None => false,
        };
        Some(
            NgPipeInfo::new(
                String::from_str(class_name),
                name,
                pure,
                standalone,
                imports,
                String::from_str(file_path),
                get_relative_path(file_path, base_path),
                package_name.clone(),
            ),
        )
    }
}

/// Builds a service record from an `Injectable` decorator.
pub struct NgServiceAnalyzer;

impl NgServiceAnalyzer {
    /// A record for an `Injectable` decorator carrying properties.
    pub fn analyze(
        analysis: &DecoratorAnalysis,
        file_path: &str,
        base_path: &str,
        class_name: &str,
        package_name: &String,
        imports: &Vec<ResolvedImport>,
    ) -> (r: Option<NgServiceInfo>)
        ensures
            match r {
                Some(service) => {
                    &&& analysis.name@ == "Injectable"@
                    &&& analysis.raw_props is Some
                    &&& service.base.name@ == class_name@
                    &&& service.base.imports@ == imports@
                    &&& service.base.source_path@ == file_path@
                    &&& service.base.relative_path@ == spec_relative_path(file_path@, base_path@)
                    &&& service.base.package_name@ == package_name@
                    &&& service.provided_in@ == (match spec_string_prop(
                        analysis.raw_props->Some_0.props@,
                        "providedIn"@,
                    ) {
                        Some(v) => v,
                        None => "root"@,
                    })
                },
                None => analysis.name@ != "Injectable"@ || analysis.raw_props is None,
            },
    {
        if !str_eq(analysis.name.as_str(), "Injectable") {
            return None;
        }
        let props = match &analysis.raw_props {
            Some(p) => p,
            None => {
                return None;
            },
        };
        let provided_in = match DecoratorAnalyzer::get_string_prop(props, "providedIn") {
            Some(v) => v,
            None => String::from_str("root"),
        };
        Some(
            NgServiceInfo::new(
                String::from_str(class_name),
                provided_in,
                clone_imports(imports),
                String::from_str(file_path),
                get_relative_path(file_path, base_path),
                package_name.clone(),
            ),
        )
    }
}

/// Builds a directive record from a `Directive` decorator.
pub struct NgDirectiveAnalyzer;

impl NgDirectiveAnalyzer {
    /// A record for a `Directive` decorator carrying properties; its host
    /// bindings are the string values of the `host` object.
    pub fn analyze(
        analysis: &DecoratorAnalysis,
        file_path: &str,
        base_path: &str,
        class_name: &str,
        package_name: &String,
        imports: Vec<ResolvedImport>,
    ) -> (r: Option<NgDirectiveInfo>)
        ensures
            match r {
                Some(directive) => {
                    &&& analysis.name@ == "Directive"@
                    &&& analysis.raw_props is Some
                    &&& directive.base.name@ == class_name@
                    &&& directive.base.imports@ == imports@
                    &&& directive.base.source_path@ == file_path@
                    &&& directive.base.relative_path@ == spec_relative_path(
                        file_path@,
                        base_path@,
                    )
                    &&& directive.base.package_name@ == package_name@
                    &&& directive.selector@ == (match spec_string_prop(
                        analysis.raw_props->Some_0.props@,
                        "selector"@,
                    ) {
                        Some(v) => v,
                        None => Seq::<char>::empty(),
                    })
                    &&& directive.standalone == (match spec_bool_prop(
                        analysis.raw_props->Some_0.props@,
                        "standalone"@,
                    ) {
                        Some(b) => b,
                        None => false,
                    })
                    &&& directive.host_bindings@ == spec_obj_values_prop(
                        analysis.raw_props->Some_0.props@,
                        "host"@,
                    )
                    &&& directive.host_listeners@.len() == 0
                },
                None => analysis.name@ != "Directive"@ || analysis.raw_props is None,
            },
    {
        if !str_eq(analysis.name.as_str(), "Directive") {
            return None;
        }
        let props = match &analysis.raw_props {
            Some(p) => p,
            None => {
                return None;
            },
        };
        let selector = match DecoratorAnalyzer::get_string_prop(props, "selector") {
            Some(v) => v,
            None => String::new(),
        };
        let standalone = match DecoratorAnalyzer::get_bool_prop(props, "standalone") {
            Some(b) => b,
            None => false,
        };
        let host_bindings = DecoratorAnalyzer::get_obj_values_prop(props, "host");
        Some(
            NgDirectiveInfo::new(
                String::from_str(class_name),
                selector,
                standalone,
                host_bindings,
                Vec::new(),
                imports,
                String::from_str(file_path),
                get_relative_path(file_path, base_path),
                package_name.clone(),
            ),
        )
    }
}

/// Builds a module record from an `NgModule` decorator.
pub struct NgModuleAnalyzer;

impl NgModuleAnalyzer {
    /// A record for an `NgModule` decorator carrying properties: its
    /// declaration, export and provider identifier lists.
    pub fn analyze(
        analysis: &DecoratorAnalysis,
        file_path: &str,
        project_root: &str,
        class_name: &str,
        package_name: &String,
    ) -> (r: Option<NgModuleInfo>)
        ensures
            match r {
                Some(module) => {
                    &&& analysis.name@ == "NgModule"@
                    &&& analysis.raw_props is Some
                    &&& module.base.name@ == class_name@
                    &&& module.base.imports@.len() == 0
                    &&& module.base.source_path@ == file_path@
                    &&& module.base.relative_path@ == spec_relative_path(
                        file_path@,
                        project_root@,
                    )
                    &&& module.base.package_name@ == package_name@
                    &&& module.declarations@ == spec_ident_array_prop(
                        analysis.raw_props->Some_0.props@,
                        "declarations"@,
                    )
                    &&& module.exports@ == spec_ident_array_prop(
                        analysis.raw_props->Some_0.props@,
                        "exports"@,
                    )
                    &&& module.providers@ == spec_ident_array_prop(
                        analysis.raw_props->Some_0.props@,
                        "providers"@,
                    )
                },
                None => analysis.name@ != "NgModule"@ || analysis.raw_props is None,
            },
    {
        if !str_eq(analysis.name.as_str(), "NgModule") {
            return None;
        }
        let props = match &analysis.raw_props {
            Some(p) => p,
            None => {
                return None;
            },
        };
        let declarations = DecoratorAnalyzer::get_ident_array_prop(props, "declarations");
        let exports = DecoratorAnalyzer::get_ident_array_prop(props, "exports");
        let providers = DecoratorAnalyzer::get_ident_array_prop(props, "providers");
        Some(
            NgModuleInfo::new(
                String::from_str(class_name),
                declarations,
                exports,
                providers,
                String::from_str(file_path),
                get_relative_path(file_path, project_root),
                package_name.clone(),
            ),
        )
    }
}

/// Builds a component record from a `Component` decorator.
pub struct NgComponentAnalyzer;

impl NgComponentAnalyzer {
    /// A record for a `Component` decorator carrying properties. When the
    /// decorator names a template and its text is supplied, the template
    /// is scanned for usages; otherwise the usages stay empty.
    pub fn analyze(
        analysis: &DecoratorAnalysis,
        file_path: &str,
        project_root: &str,
        class_name: &str,
        package_name: &String,
        imports: Vec<ResolvedImport>,
        template_content: Option<&str>,
    ) -> (r: Option<NgComponentInfo>)
        ensures
            match r {
                Some(component) => {
                    &&& analysis.name@ == "Component"@
                    &&& analysis.raw_props is Some
                    &&& component.base.name@ == class_name@
                    &&& component.base.imports@ == imports@
                    &&& component.base.source_path@ == file_path@
                    &&& component.base.relative_path@ == spec_relative_path(
                        file_path@,
                        project_root@,
                    )
                    &&& component.base.package_name@ == package_name@
                    &&& component.selector@ == (match spec_string_prop(
                        analysis.raw_props->Some_0.props@,
                        "selector"@,
                    ) {
                        Some(v) => v,
                        None => Seq::<char>::empty(),
                    })
                    &&& component.template_path@ == (match spec_string_prop(
                        analysis.raw_props->Some_0.props@,
                        "templateUrl"@,
                    ) {
                        Some(v) => v,
                        None => Seq::<char>::empty(),
                    })
                    &&& component.style_paths@ == spec_string_array_prop(
                        analysis.raw_props->Some_0.props@,
                        "styleUrls"@,
                    )
                    &&& component.standalone == (match spec_bool_prop(
                        analysis.raw_props->Some_0.props@,
                        "standalone"@,
                    ) {
                        Some(b) => b,
                        None => false,
                    })
                    &&& (match template_content {
                        Some(t) => component.template_path@.len() > 0 ==> str_seq_set(
                            component.template_usages.components@,
                        ) == spec_components(t@) && str_seq_set(
                            component.template_usages.directives@,
                        ) == spec_directives(t@) && str_seq_set(
                            component.template_usages.pipes@,
                        ) == spec_pipes(t@),
                        None => component.template_usages.components@.len() == 0
                            && component.template_usages.pipes@.len() == 0
                            && component.template_usages.directives@.len() == 0,
                    })
                    &&& (component.template_path@.len() == 0
                        ==> component.template_usages.components@.len() == 0
                        && component.template_usages.pipes@.len() == 0
                        && component.template_usages.directives@.len() == 0)
                },
                None => analysis.name@ != "Component"@ || analysis.raw_props is None,
            },
    {
        if !str_eq(analysis.name.as_str(), "Component") {
            return None;
        }
        let props = match &analysis.raw_props {
            Some(p) => p,
            None => {
                return None;
            },
        };
        let selector = match DecoratorAnalyzer::get_string_prop(props, "selector") {
            Some(v) => v,
            None => String::new(),
        };
        let template_path = match DecoratorAnalyzer::get_string_prop(props, "templateUrl") {
            Some(v) => v,
            None => String::new(),
        };
        let style_paths = DecoratorAnalyzer::get_string_array_prop(props, "styleUrls");
        let standalone = match DecoratorAnalyzer::get_bool_prop(props, "standalone") {
            Some(b) => b,
            None => false,
        };
        let mut component = NgComponentInfo::new(
            String::from_str(class_name),
            selector,
            template_path,
            style_paths,
            standalone,
            imports,
            String::from_str(file_path),
            get_relative_path(file_path, project_root),
            package_name.clone(),
        );
        if component.template_path.unicode_len() > 0 {
            match template_content {
                Some(text) => {
                    let parser = TemplateParser::new();
                    component.template_usages = parser.parse_template(text);
                },
                None => {},
            }
        }
        Some(component)
    }
}

/// Apply one analyzed decorator to the running results: the decorator's
/// name decides which analyzer runs and which element list grows.
pub fn apply_decorator_analysis(
    results: &mut NgAnalysisResults,
    analysis: &DecoratorAnalysis,
    file_path: &str,
    project_root: &str,
    class_name: &str,
    package_name: &String,
    imports: &Vec<ResolvedImport>,
    template_content: Option<&str>,
)
    ensures
        final(results).base_path == old(results).base_path,
        final(results).others@ == old(results).others@,
        final(results).test_specs@ == old(results).test_specs@,
        analysis.name@ == "Component"@ && analysis.raw_props is Some ==> final(results).components@.len() == old(results).components@.len() + 1 && final(results).components@.last().base.name@ == class_name@,
        analysis.name@ != "Component"@ || analysis.raw_props is None ==> final(results).components@ == old(results).components@,
        analysis.name@ == "Injectable"@ && analysis.raw_props is Some ==> final(results).services@.len() == old(results).services@.len() + 1 && final(results).services@.last().base.name@ == class_name@,
        analysis.name@ != "Injectable"@ || analysis.raw_props is None ==> final(results).services@ == old(results).services@,
        analysis.name@ == "NgModule"@ && analysis.raw_props is Some ==> final(results).modules@.len() == old(results).modules@.len() + 1 && final(results).modules@.last().base.name@ == class_name@,
        analysis.name@ != "NgModule"@ || analysis.raw_props is None ==> final(results).modules@
            == old(results).modules@,
        analysis.name@ == "Directive"@ && analysis.raw_props is Some ==> final(results).directives@.len() == old(results).directives@.len() + 1 && final(results).directives@.last().base.name@ == class_name@,
        analysis.name@ != "Directive"@ || analysis.raw_props is None ==> final(results).directives@ == old(results).directives@,
        analysis.name@ == "Pipe"@ && analysis.raw_props is Some ==> final(results).pipes@.len()
            == old(results).pipes@.len() + 1 && final(results).pipes@.last().base.name@
            == class_name@,
        analysis.name@ != "Pipe"@ || analysis.raw_props is None ==> final(results).pipes@ == old(results).pipes@,
{
    proof {
        reveal_strlit("Component");
        reveal_strlit("Injectable");
        reveal_strlit("NgModule");
        reveal_strlit("Directive");
        reveal_strlit("Pipe");
        // The five decorator names are pairwise distinct: four lengths
        // differ, and the two of equal length differ in their first
        // character.
        assert("Component"@.len() == 9);
        assert("Injectable"@.len() == 10);
        assert("NgModule"@.len() == 8);
        assert("Directive"@.len() == 9);
        assert("Pipe"@.len() == 4);
        assert("Component"@[0] == 'C');
        assert("Directive"@[0] == 'D');
        assert("Component"@ != "Directive"@);
    }
    if str_eq(analysis.name.as_str(), "Component") {
        match NgComponentAnalyzer::analyze(
            analysis,
            file_path,
            project_root,
            class_name,
            package_name,
            clone_imports(imports),
            template_content,
        ) {
            Some(component) => {
                results.components.push(component);
            },
            None => {},
        }
    } else if str_eq(analysis.name.as_str(), "Injectable") {
        match NgServiceAnalyzer::analyze(
            analysis,
            file_path,
            project_root,
            class_name,
            package_name,
            imports,
        ) {
            Some(service) => {
                results.services.push(service);
            },
            None => {},
        }
    } else if str_eq(analysis.name.as_str(), "NgModule") {
        match NgModuleAnalyzer::analyze(
            analysis,
            file_path,
            project_root,
            class_name,
            package_name,
        ) {
            Some(module) => {
                results.modules.push(module);
            },
            None => {},
        }
    } else if str_eq(analysis.name.as_str(), "Directive") {
        match NgDirectiveAnalyzer::analyze(
            analysis,
            file_path,
            project_root,
            class_name,
            package_name,
            clone_imports(imports),
        ) {
            Some(directive) => {
                results.directives.push(directive);
            },
            None => {},
        }
    } else if str_eq(analysis.name.as_str(), "Pipe") {
        match NgPipeAnalyzer::analyze(
            analysis,
            file_path,
            project_root,
            class_name,
            package_name,
            clone_imports(imports),
        ) {
            Some(pipe) => {
                results.pipes.push(pipe);
            },
            None => {},
        }
    }
}

} // verus!
