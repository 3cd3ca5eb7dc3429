//! The declaration merge engine: single-pass classification of a
//! class/protocol/category body's immediate children into protocol
//! conformances, generic parameters and a deduplicated method list, with
//! property/accessor unification.

use vstd::prelude::*;

use crate::ast::{Entity, EntityData, Method, MethodS, MethodSighting, PropertySighting};
use crate::diag::{DiagS, Diagnostic, FatalS, Fatal};

verus! {

/// Accumulated state of the single pass over a class-like body's immediate
/// children.
#[verifier::ext_equal]
pub struct ObjcAccS {
    pub protocols: Seq<Seq<char>>,
    pub methods: Seq<MethodS>,
    pub designated_initializers: Seq<Seq<char>>,
    pub generics: Seq<Seq<char>>,
    /// Accessor selector keys recorded by property children and not yet
    /// consumed by a matching synthesized method.
    pub properties: Seq<(bool, Seq<char>)>,
    pub diags: Seq<DiagS>,
}

/// Result of the merge engine: a class-like body classified into protocol
/// conformances, a deduplicated method list, designated-initializer names
/// and generic parameters, plus the diagnostics the pass reported.
#[verifier::ext_equal]
pub struct ObjcDeclS {
    pub protocols: Seq<Seq<char>>,
    pub methods: Seq<MethodS>,
    pub designated_initializers: Seq<Seq<char>>,
    pub generics: Seq<Seq<char>>,
    pub diags: Seq<DiagS>,
}

pub open spec fn spec_empty_acc() -> ObjcAccS {
    ObjcAccS {
        protocols: Seq::empty(),
        methods: Seq::empty(),
        designated_initializers: Seq::empty(),
        generics: Seq::empty(),
        properties: Seq::empty(),
        diags: Seq::empty(),
    }
}

/// `s` with its first occurrence of `x` removed.
pub open spec fn spec_remove_first<A>(s: Seq<A>, x: A) -> Seq<A>
    decreases s.len(),
{
    if s.len() == 0 {
        s
    } else if s[0] == x {
        s.drop_first()
    } else {
        seq![s[0]] + spec_remove_first(s.drop_first(), x)
    }
}

/// Removing the first occurrence, located at `idx`, is removing index `idx`.
pub proof fn lemma_remove_first_at<A>(s: Seq<A>, x: A, idx: int)
    requires
        0 <= idx < s.len(),
        s[idx] == x,
        forall|j: int| 0 <= j < idx ==> s[j] != x,
    ensures
        spec_remove_first(s, x) == s.remove(idx),
    decreases idx,
{
    if idx == 0 {
        assert(s.drop_first() =~= s.remove(0));
    } else {
        lemma_remove_first_at(s.drop_first(), x, idx - 1);
        assert(seq![s[0]] + s.drop_first().remove(idx - 1) =~= s.remove(idx));
    }
}

/// One method child: suppress it when it is the compiler-synthesized
/// accessor of an already-recorded property (consuming the recorded key);
/// otherwise append its parsed descriptor, noting a designated initializer.
pub open spec fn spec_method_step(
    props: Seq<(bool, Seq<char>)>,
    methods: Seq<MethodS>,
    designated: Seq<Seq<char>>,
    is_class: bool,
    s: MethodSighting,
) -> (Seq<(bool, Seq<char>)>, Seq<MethodS>, Seq<Seq<char>>) {
    let key = (is_class, s.selector@);
    if props.contains(key) {
        (spec_remove_first(props, key), methods, designated)
    } else {
        match s.parsed {
            Some(outcome) => {
                (
                    props,
                    methods.push(outcome.method@),
                    if outcome.designated_initializer {
                        designated.push(outcome.method.fn_name@)
                    } else {
                        designated
                    },
                )
            },
            None => (props, methods, designated),
        }
    }
}

/// The accessor methods a property child emits, getter first.
pub open spec fn spec_property_methods(methods: Seq<MethodS>, p: PropertySighting) -> Seq<
    MethodS,
> {
    let with_getter = match p.getter {
        Some(g) => methods.push(g@),
        None => methods,
    };
    match p.setter {
        Some(s) => with_getter.push(s@),
        None => with_getter,
    }
}

/// One property child: record its getter key and, if present, its setter
/// key — a duplicate insertion is fatal, two properties may not declare the
/// same accessor selector — then emit its accessor methods.
pub open spec fn spec_property_step(
    props: Seq<(bool, Seq<char>)>,
    methods: Seq<MethodS>,
    p: PropertySighting,
) -> Result<(Seq<(bool, Seq<char>)>, Seq<MethodS>), FatalS> {
    let gkey = (p.is_class, p.getter_name@);
    if props.contains(gkey) {
        Err(FatalS::DuplicatePropertyAccessor { is_class: p.is_class, selector: p.getter_name@ })
    } else {
        let with_getter = props.push(gkey);
        match p.setter_name {
            Some(sn) => {
                let skey = (p.is_class, sn@);
                if with_getter.contains(skey) {
                    Err(FatalS::DuplicatePropertyAccessor { is_class: p.is_class, selector: sn@ })
                } else {
                    Ok((with_getter.push(skey), spec_property_methods(methods, p)))
                }
            },
            None => Ok((with_getter, spec_property_methods(methods, p))),
        }
    }
}

pub open spec fn spec_acc_warn(acc: ObjcAccS) -> ObjcAccS {
    ObjcAccS { diags: acc.diags.push(DiagS::UnknownChild), ..acc }
}

/// Classification of one immediate child of a class-like body.
/// `superclass` is set when parsing a class declaration (whose superclass
/// and ivar children are handled elsewhere); `with_generics` when generic
/// type parameters are collected (classes and categories, not protocols).
pub open spec fn spec_objc_step(
    acc: ObjcAccS,
    c: Entity,
    superclass: bool,
    with_generics: bool,
) -> Result<ObjcAccS, FatalS> {
    match c.data {
        EntityData::ObjCExplicitProtocolImpl => {
            if !with_generics && !superclass {
                Ok(acc)
            } else {
                Ok(spec_acc_warn(acc))
            }
        },
        EntityData::ObjCIvarDecl => {
            if superclass {
                Ok(acc)
            } else {
                Ok(spec_acc_warn(acc))
            }
        },
        EntityData::ObjCSuperClassRef { .. } => {
            if superclass {
                Ok(acc)
            } else {
                Ok(spec_acc_warn(acc))
            }
        },
        EntityData::TypeRef { .. } => {
            if superclass {
                Ok(acc)
            } else {
                Ok(spec_acc_warn(acc))
            }
        },
        EntityData::ObjCRootClass => Ok(acc),
        EntityData::ObjCClassRef { .. } => {
            if with_generics {
                Ok(acc)
            } else {
                Ok(spec_acc_warn(acc))
            }
        },
        EntityData::TemplateTypeParameter { name } => {
            if with_generics {
                Ok(ObjcAccS { generics: acc.generics.push(name@), ..acc })
            } else {
                Ok(ObjcAccS { diags: acc.diags.push(DiagS::UnsupportedGenerics), ..acc })
            }
        },
        EntityData::ObjCProtocolRef { name } => {
            Ok(ObjcAccS { protocols: acc.protocols.push(name@), ..acc })
        },
        EntityData::ObjCInstanceMethodDecl { sighting } => {
            let (props, methods, designated) = spec_method_step(
                acc.properties,
                acc.methods,
                acc.designated_initializers,
                false,
                sighting,
            );
            Ok(
                ObjcAccS {
                    properties: props,
                    methods: methods,
                    designated_initializers: designated,
                    ..acc
                },
            )
        },
        EntityData::ObjCClassMethodDecl { sighting } => {
            let (props, methods, designated) = spec_method_step(
                acc.properties,
                acc.methods,
                acc.designated_initializers,
                true,
                sighting,
            );
            Ok(
                ObjcAccS {
                    properties: props,
                    methods: methods,
                    designated_initializers: designated,
                    ..acc
                },
            )
        },
        EntityData::ObjCPropertyDecl { property } => {
            match spec_property_step(acc.properties, acc.methods, property) {
                Ok((props, methods)) => (Ok(
                    ObjcAccS { properties: props, methods: methods, ..acc },
                )),
                Err(f) => Err(f),
            }
        },
        EntityData::VisibilityAttr => Ok(acc),
        EntityData::ObjCException => {
            if superclass {
                Ok(acc)
            } else {
                Ok(spec_acc_warn(acc))
            }
        },
        EntityData::UnexposedAttr { tag } => {
            match tag {
                Some(t) => Ok(ObjcAccS { diags: acc.diags.push(DiagS::UnknownMacro { tag: t }), ..acc }),
                None => Ok(acc),
            }
        },
        _ => Ok(spec_acc_warn(acc)),
    }
}

/// The merge engine's single pass, folded over `children` left to right.
pub open spec fn spec_objc_children(
    children: Seq<Entity>,
    superclass: bool,
    with_generics: bool,
    init: ObjcAccS,
) -> Result<ObjcAccS, FatalS>
    decreases children.len(),
{
    if children.len() == 0 {
        Ok(init)
    } else {
        match spec_objc_children(children.drop_last(), superclass, with_generics, init) {
            Ok(acc) => spec_objc_step(acc, children.last(), superclass, with_generics),
            Err(f) => Err(f),
        }
    }
}

/// A fatal result of a prefix of the pass is the result of the whole pass.
pub proof fn lemma_objc_prefix_err(
    children: Seq<Entity>,
    superclass: bool,
    with_generics: bool,
    init: ObjcAccS,
    k: int,
)
    requires
        0 <= k <= children.len(),
        spec_objc_children(children.subrange(0, k), superclass, with_generics, init) is Err,
    ensures
        spec_objc_children(children, superclass, with_generics, init) == spec_objc_children(
            children.subrange(0, k),
            superclass,
            with_generics,
            init,
        ),
    decreases children.len() - k,
{
    if k == children.len() {
        assert(children.subrange(0, k) =~= children);
    } else {
        assert(children.subrange(0, k + 1).drop_last() =~= children.subrange(0, k));
        lemma_objc_prefix_err(children, superclass, with_generics, init, k + 1);
    }
}

/// The single allow-listed anomaly: one specific unmatched setter selector
/// is silently tolerated rather than reported.
pub open spec fn spec_tolerated_leftover(props: Seq<(bool, Seq<char>)>) -> bool {
    props == seq![(false, "setDisplayName"@)]
}

/// Close the pass: any property key not consumed by a matching method is
/// reported, unless it is exactly the allow-listed anomaly.
pub open spec fn spec_objc_finish(acc: ObjcAccS) -> ObjcDeclS {
    let diags = if acc.properties.len() == 0 || spec_tolerated_leftover(acc.properties) {
        acc.diags
    } else {
        acc.diags.push(DiagS::UnmatchedProperties { keys: acc.properties })
    };
    ObjcDeclS {
        protocols: acc.protocols,
        methods: acc.methods,
        designated_initializers: acc.designated_initializers,
        generics: acc.generics,
        diags: diags,
    }
}

/// The merge engine, whole: classify the immediate children of a
/// class/protocol/category node in one pass.
pub open spec fn spec_parse_objc_decl(e: Entity, superclass: bool, with_generics: bool) -> Result<
    ObjcDeclS,
    FatalS,
> {
    match spec_objc_children(e.children@, superclass, with_generics, spec_empty_acc()) {
        Ok(acc) => Ok(spec_objc_finish(acc)),
        Err(f) => Err(f),
    }
}

/// Exec result of the merge engine.
#[derive(Debug)]
pub struct ObjcDecl {
    pub protocols: Vec<String>,
    pub methods: Vec<Method>,
    pub designated_initializers: Vec<String>,
    pub generics: Vec<String>,
    pub diags: Vec<Diagnostic>,
}

impl View for ObjcDecl {
    type V = ObjcDeclS;

    open spec fn view(&self) -> ObjcDeclS {
        ObjcDeclS {
            protocols: self.protocols.deep_view(),
            methods: self.methods.deep_view(),
            designated_initializers: self.designated_initializers.deep_view(),
            generics: self.generics.deep_view(),
            diags: self.diags.deep_view(),
        }
    }
}

/// Index of the first recorded property key matching `(is_class, name)`.
fn find_key(props: &Vec<(bool, String)>, is_class: bool, name: &String) -> (r: Option<usize>)
    ensures
        match r {
            Some(idx) => {
                &&& idx < props@.len()
                &&& props.deep_view()[idx as int] == (is_class, name@)
                &&& forall|j: int| 0 <= j < idx ==> props.deep_view()[j] != (is_class, name@)
                &&& props.deep_view().contains((is_class, name@))
            },
            None => !props.deep_view().contains((is_class, name@)),
        },
{
    let mut i: usize = 0;
    while i < props.len()
        invariant
            i <= props.len(),
            forall|j: int| 0 <= j < i ==> props.deep_view()[j] != (is_class, name@),
        decreases props.len() - i,
    {
        let hit_class = props[i].0 == is_class;
        let hit_name = props[i].1 == *name;
        if hit_class && hit_name {
            proof {
                assert(props.deep_view()[i as int] == (is_class, name@));
            }
            return Some(i);
        }
        proof {
            assert(props.deep_view()[i as int] != (is_class, name@));
        }
        i = i + 1;
    }
    proof {
        if props.deep_view().contains((is_class, name@)) {
            let j = choose|j: int|
                0 <= j < props.deep_view().len() && props.deep_view()[j] == (is_class, name@);
            assert(false);
        }
    }
    None
}

/// One method child of the pass, in place.
fn merge_method_child(
    is_class: bool,
    sighting: &MethodSighting,
    properties: &mut Vec<(bool, String)>,
    methods: &mut Vec<Method>,
    designated_initializers: &mut Vec<String>,
)
    ensures
        ({
            let (props, meths, des) = spec_method_step(
                old(properties).deep_view(),
                old(methods).deep_view(),
                old(designated_initializers).deep_view(),
                is_class,
                *sighting,
            );
            &&& final(properties).deep_view() == props
            &&& final(methods).deep_view() == meths
            &&& final(designated_initializers).deep_view() == des
        }),
{
    match find_key(properties, is_class, &sighting.selector) {
        Some(idx) => {
            proof {
                lemma_remove_first_at(
                    properties.deep_view(),
                    (is_class, sighting.selector@),
                    idx as int,
                );
            }
            properties.remove(idx);
            proof {
                assert(properties.deep_view() =~= spec_remove_first(
                    old(properties).deep_view(),
                    (is_class, sighting.selector@),
                ));
            }
        },
        None => {
            match &sighting.parsed {
                Some(outcome) => {
                    if outcome.designated_initializer {
                        designated_initializers.push(outcome.method.fn_name.clone());
                        proof {
                            assert(designated_initializers.deep_view() =~= old(
                                designated_initializers,
                            ).deep_view().push(outcome.method.fn_name@));
                        }
                    }
                    methods.push(outcome.method.duplicate());
                    proof {
                        assert(methods.deep_view() =~= old(methods).deep_view().push(
                            outcome.method@,
                        ));
                    }
                },
                None => {},
            }
        },
    }
}

/// One property child of the pass, in place. On a duplicate accessor
/// selector nothing of the partial update is relied on: the caller aborts.
fn merge_property_child(
    property: &PropertySighting,
    properties: &mut Vec<(bool, String)>,
    methods: &mut Vec<Method>,
) -> (r: Result<(), Fatal>)
    ensures
        match r {
            Ok(()) => {
                &&& spec_property_step(
                    old(properties).deep_view(),
                    old(methods).deep_view(),
                    *property,
                ) matches Ok(p)
                &&& final(properties).deep_view() == p.0
                &&& final(methods).deep_view() == p.1
            },
            Err(f) => spec_property_step(
                old(properties).deep_view(),
                old(methods).deep_view(),
                *property,
            ) == Err::<(Seq<(bool, Seq<char>)>, Seq<MethodS>), FatalS>(f@),
        },
{
    if find_key(properties, property.is_class, &property.getter_name).is_some() {
        return Err(
            Fatal::DuplicatePropertyAccessor {
                is_class: property.is_class,
                selector: property.getter_name.clone(),
            },
        );
    }
    properties.push((property.is_class, property.getter_name.clone()));
    proof {
        assert(properties.deep_view() =~= old(properties).deep_view().push(
            (property.is_class, property.getter_name@),
        ));
    }
    match &property.setter_name {
        Some(setter_name) => {
            if find_key(properties, property.is_class, setter_name).is_some() {
                return Err(
                    Fatal::DuplicatePropertyAccessor {
                        is_class: property.is_class,
                        selector: setter_name.clone(),
                    },
                );
            }
            let ghost before = properties.deep_view();
            properties.push((property.is_class, setter_name.clone()));
            proof {
                assert(properties.deep_view() =~= before.push(
                    (property.is_class, setter_name@),
                ));
            }
        },
        None => {},
    }
    let ghost methods_before = methods.deep_view();
    match &property.getter {
        Some(getter) => {
            methods.push(getter.duplicate());
            proof {
                assert(methods.deep_view() =~= methods_before.push(getter@));
            }
        },
        None => {},
    }
    let ghost methods_mid = methods.deep_view();
    match &property.setter {
        Some(setter) => {
            methods.push(setter.duplicate());
            proof {
                assert(methods.deep_view() =~= methods_mid.push(setter@));
            }
        },
        None => {},
    }
    Ok(())
}

/// The declaration merge engine: walk the immediate children of a
/// class/protocol/category node once, classifying each child, collecting
/// protocol conformances, generic parameters and methods, while suppressing
/// methods that are compiler-synthesized accessors for an already-recorded
/// property.
pub fn parse_objc_decl(entity: &Entity, superclass: bool, with_generics: bool) -> (r: Result<
    ObjcDecl,
    Fatal,
>)
    ensures
        match r {
            Ok(d) => spec_parse_objc_decl(*entity, superclass, with_generics) == Ok::<
                ObjcDeclS,
                FatalS,
            >(d@),
            Err(f) => spec_parse_objc_decl(*entity, superclass, with_generics) == Err::<
                ObjcDeclS,
                FatalS,
            >(f@),
        },
{
    let children = &entity.children;
    let mut protocols: Vec<String> = Vec::new();
    let mut methods: Vec<Method> = Vec::new();
    let mut designated_initializers: Vec<String> = Vec::new();
    let mut generics: Vec<String> = Vec::new();
    let mut properties: Vec<(bool, String)> = Vec::new();
    let mut diags: Vec<Diagnostic> = Vec::new();

    let mut i: usize = 0;
    proof {
        assert(children@.subrange(0, 0) =~= Seq::<Entity>::empty());
        assert(ObjcAccS {
            protocols: protocols.deep_view(),
            methods: methods.deep_view(),
            designated_initializers: designated_initializers.deep_view(),
            generics: generics.deep_view(),
            properties: properties.deep_view(),
            diags: diags.deep_view(),
        } =~= spec_empty_acc());
    }
    while i < children.len()
        invariant
            i <= children.len(),
            children == &entity.children,
            spec_objc_children(
                children@.subrange(0, i as int),
                superclass,
                with_generics,
                spec_empty_acc(),
            ) == Ok::<ObjcAccS, FatalS>(
                ObjcAccS {
                    protocols: protocols.deep_view(),
                    methods: methods.deep_view(),
                    designated_initializers: designated_initializers.deep_view(),
                    generics: generics.deep_view(),
                    properties: properties.deep_view(),
                    diags: diags.deep_view(),
                },
            ),
        decreases children.len() - i,
    {
        let ghost prev = ObjcAccS {
            protocols: protocols.deep_view(),
            methods: methods.deep_view(),
            designated_initializers: designated_initializers.deep_view(),
            generics: generics.deep_view(),
            properties: properties.deep_view(),
            diags: diags.deep_view(),
        };
        proof {
            assert(children@.subrange(0, i as int + 1).drop_last() =~= children@.subrange(
                0,
                i as int,
            ));
            assert(children@.subrange(0, i as int + 1).last() == children@[i as int]);
        }
        match &children[i].data {
            EntityData::ObjCExplicitProtocolImpl => {
                if with_generics || superclass {
                    diags.push(Diagnostic::UnknownChild);
                }
            },
            EntityData::ObjCIvarDecl => {
                if !superclass {
                    diags.push(Diagnostic::UnknownChild);
                }
            },
            EntityData::ObjCSuperClassRef { .. } => {
                if !superclass {
                    diags.push(Diagnostic::UnknownChild);
                }
            },
            EntityData::TypeRef { .. } => {
                if !superclass {
                    diags.push(Diagnostic::UnknownChild);
                }
            },
            EntityData::ObjCRootClass => {},
            EntityData::ObjCClassRef { .. } => {
                if !with_generics {
                    diags.push(Diagnostic::UnknownChild);
                }
            },
            EntityData::TemplateTypeParameter { name } => {
                if with_generics {
                    generics.push(name.clone());
                } else {
                    diags.push(Diagnostic::UnsupportedGenerics);
                }
            },
            EntityData::ObjCProtocolRef { name } => {
                protocols.push(name.clone());
            },
            EntityData::ObjCInstanceMethodDecl { sighting } => {
                merge_method_child(
                    false,
                    sighting,
                    &mut properties,
                    &mut methods,
                    &mut designated_initializers,
                );
            },
            EntityData::ObjCClassMethodDecl { sighting } => {
                merge_method_child(
                    true,
                    sighting,
                    &mut properties,
                    &mut methods,
                    &mut designated_initializers,
                );
            },
            EntityData::ObjCPropertyDecl { property } => {
                match merge_property_child(property, &mut properties, &mut methods) {
                    Ok(()) => {},
                    Err(f) => {
                        proof {
                            assert(spec_objc_step(
                                prev,
                                children@[i as int],
                                superclass,
                                with_generics,
                            ) == Err::<ObjcAccS, FatalS>(f@));
                            assert(spec_objc_children(
                                children@.subrange(0, i as int + 1),
                                superclass,
                                with_generics,
                                spec_empty_acc(),
                            ) == Err::<ObjcAccS, FatalS>(f@));
                            lemma_objc_prefix_err(
                                children@,
                                superclass,
                                with_generics,
                                spec_empty_acc(),
                                i as int + 1,
                            );
                        }
                        return Err(f);
                    },
                }
            },
            EntityData::VisibilityAttr => {},
            EntityData::ObjCException => {
                if !superclass {
                    diags.push(Diagnostic::UnknownChild);
                }
            },
            EntityData::UnexposedAttr { tag } => {
                match tag {
                    Some(t) => {
                        diags.push(Diagnostic::UnknownMacro { tag: *t });
                    },
                    None => {},
                }
            },
            _ => {
                diags.push(Diagnostic::UnknownChild);
            },
        }
        proof {
            let now = ObjcAccS {
                protocols: protocols.deep_view(),
                methods: methods.deep_view(),
                designated_initializers: designated_initializers.deep_view(),
                generics: generics.deep_view(),
                properties: properties.deep_view(),
                diags: diags.deep_view(),
            };
            assert(spec_objc_step(prev, children@[i as int], superclass, with_generics) == Ok::<
                ObjcAccS,
                FatalS,
            >(now)) by {
                assert(spec_objc_step(prev, children@[i as int], superclass, with_generics)
                    matches Ok(stepped) ==> stepped =~= now);
            }
        }
        i = i + 1;
    }
    proof {
        assert(children@.subrange(0, children@.len() as int) =~= children@);
    }

    let tolerated: bool = if properties.len() == 1 {
        let lit: String = "setDisplayName".to_owned();
        let is_instance = !properties[0].0;
        let name_hit = properties[0].1 == lit;
        is_instance && name_hit
    } else {
        false
    };
    proof {
        if tolerated {
            assert(properties.deep_view() =~= seq![(false, "setDisplayName"@)]);
        } else {
            if properties.deep_view().len() == 1 {
                assert(properties.deep_view()[0] == (
                    properties@[0].0,
                    properties@[0].1@,
                ));
            }
            assert(!spec_tolerated_leftover(properties.deep_view()));
        }
    }
    if !(properties.len() == 0 || tolerated) {
        diags.push(Diagnostic::UnmatchedProperties { keys: properties });
    }

    let result = ObjcDecl { protocols, methods, designated_initializers, generics, diags };
    proof {
        assert(spec_parse_objc_decl(*entity, superclass, with_generics) matches Ok(d) ==> d
            =~= result@);
    }
    Ok(result)
}

} // verus!
