//! Properties of the dispatcher and the merge engine, stated and proved
//! over the same specifications the executable contracts use.

use vstd::prelude::*;

use crate::ast::{Entity, EntityData, MethodSighting, PropertySighting};
use crate::config::Context;
use crate::diag::FatalS;
use crate::merge::{
    spec_empty_acc, spec_objc_children, spec_objc_step, spec_parse_objc_decl, spec_remove_first,
    ObjcAccS,
};
use crate::parse::{
    spec_class_definition_skipped, spec_class_skipped, spec_parse, spec_parse_struct,
    spec_parsed_empty, spec_protocol_impls, spec_struct_children, ParsedS, StructAccS,
};
use crate::resolve::{
    spec_chain_terminal, spec_parse_superclass, spec_superclass_chain, lemma_superclass_decreases,
};
use crate::render::{spec_render, spec_render_err, spec_renderable};
use crate::stmt::StmtS;

verus! {

// ---------------------------------------------------------------------------
// The superclass chain
// ---------------------------------------------------------------------------

/// For every class-like node: its resolved superclass chain is non-empty
/// exactly when an immediate superclass is declared; its first element is
/// that immediate superclass; and resolving onward from the chain's last
/// entity always yields none — chain-building terminates deterministically,
/// with no cycles, because each resolved superclass is structurally inside
/// the node that references it.
pub proof fn lemma_superclass_chain_shape(e: Entity)
    ensures
        (match spec_parse_superclass(e) {
            Some(p) => {
                &&& spec_superclass_chain(e).len() > 0
                &&& spec_superclass_chain(e)[0] == p.1
                &&& spec_superclass_chain(e) == seq![p.1] + spec_superclass_chain(p.0)
            },
            None => spec_superclass_chain(e).len() == 0,
        }),
        spec_parse_superclass(spec_chain_terminal(e)) is None,
    decreases e,
{
    lemma_superclass_decreases(e);
    match spec_parse_superclass(e) {
        Some(p) => {
            lemma_superclass_chain_shape(p.0);
        },
        None => {},
    }
}

// ---------------------------------------------------------------------------
// Property/accessor suppression
// ---------------------------------------------------------------------------

/// The accessor selector key of a method child, if the child is one.
pub open spec fn spec_method_child_key(c: Entity) -> Option<(bool, Seq<char>)> {
    match c.data {
        EntityData::ObjCInstanceMethodDecl { sighting } => Some((false, sighting.selector@)),
        EntityData::ObjCClassMethodDecl { sighting } => Some((true, sighting.selector@)),
        _ => None,
    }
}

/// The accessor selector keys one property child records.
pub open spec fn spec_property_keys(c: Entity) -> Set<(bool, Seq<char>)> {
    match c.data {
        EntityData::ObjCPropertyDecl { property } => {
            match property.setter_name {
                Some(sn) => (set![
                    (property.is_class, property.getter_name@),
                    (property.is_class, sn@),
                ]),
                None => set![(property.is_class, property.getter_name@)],
            }
        },
        _ => Set::empty(),
    }
}

/// All accessor selector keys recorded by the property children of a body.
pub open spec fn spec_recorded_keys(children: Seq<Entity>) -> Set<(bool, Seq<char>)>
    decreases children.len(),
{
    if children.len() == 0 {
        Set::empty()
    } else {
        spec_recorded_keys(children.drop_last()).union(spec_property_keys(children.last()))
    }
}

proof fn lemma_remove_first_subset<A>(s: Seq<A>, x: A)
    ensures
        forall|y: A| spec_remove_first(s, x).contains(y) ==> s.contains(y),
    decreases s.len(),
{
    if s.len() > 0 && !(s[0] == x) {
        lemma_remove_first_subset(s.drop_first(), x);
        assert forall|y: A| spec_remove_first(s, x).contains(y) implies s.contains(y) by {
            let r = seq![s[0]] + spec_remove_first(s.drop_first(), x);
            if r.contains(y) {
                let i = choose|i: int| 0 <= i < r.len() && r[i] == y;
                if i == 0 {
                    assert(s[0] == y);
                } else {
                    assert(spec_remove_first(s.drop_first(), x)[i - 1] == y);
                    assert(spec_remove_first(s.drop_first(), x).contains(y));
                    assert(s.drop_first().contains(y));
                    let j = choose|j: int|
                        0 <= j < s.drop_first().len() && s.drop_first()[j] == y;
                    assert(s[j + 1] == y);
                }
            }
        }
    } else if s.len() > 0 {
        assert forall|y: A| spec_remove_first(s, x).contains(y) implies s.contains(y) by {
            if s.drop_first().contains(y) {
                let j = choose|j: int| 0 <= j < s.drop_first().len() && s.drop_first()[j] == y;
                assert(s[j + 1] == y);
            }
        }
    }
}

/// One pass step never invents a live property key: every key live after
/// the step was live before it or is recorded by the child itself.
proof fn lemma_objc_step_keys(acc: ObjcAccS, c: Entity, superclass: bool, with_generics: bool)
    ensures
        spec_objc_step(acc, c, superclass, with_generics) is Ok ==> forall|k: (bool, Seq<char>)|
            spec_objc_step(acc, c, superclass, with_generics)->Ok_0.properties.contains(k)
                ==> acc.properties.contains(k) || spec_property_keys(c).contains(k),
{
    if spec_objc_step(acc, c, superclass, with_generics) is Ok {
        let a2 = spec_objc_step(acc, c, superclass, with_generics)->Ok_0;
        match c.data {
            EntityData::ObjCInstanceMethodDecl { sighting } => {
                lemma_remove_first_subset(acc.properties, (false, sighting.selector@));
            },
            EntityData::ObjCClassMethodDecl { sighting } => {
                lemma_remove_first_subset(acc.properties, (true, sighting.selector@));
            },
            EntityData::ObjCPropertyDecl { property } => {
                assert forall|k: (bool, Seq<char>)| a2.properties.contains(k) implies acc
                    .properties.contains(k) || spec_property_keys(c).contains(k) by {
                    let i = choose|i: int|
                        0 <= i < a2.properties.len() && a2.properties[i] == k;
                    if i < acc.properties.len() {
                        assert(acc.properties[i] == k);
                        assert(acc.properties.contains(k));
                    }
                }
            },
            _ => {},
        }
    }
}

/// Every property key live after a pass over `children` was live at its
/// start or was recorded by one of the property children.
pub proof fn lemma_live_keys_recorded(
    children: Seq<Entity>,
    superclass: bool,
    with_generics: bool,
    init: ObjcAccS,
)
    ensures
        spec_objc_children(children, superclass, with_generics, init) is Ok ==> forall|k: (
            bool,
            Seq<char>,
        )|
            spec_objc_children(children, superclass, with_generics, init)->Ok_0.properties
                .contains(k) ==> init.properties.contains(k) || spec_recorded_keys(
                children,
            ).contains(k),
    decreases children.len(),
{
    if children.len() > 0 {
        lemma_live_keys_recorded(children.drop_last(), superclass, with_generics, init);
        if spec_objc_children(children.drop_last(), superclass, with_generics, init) is Ok {
            let mid = spec_objc_children(children.drop_last(), superclass, with_generics, init)->Ok_0;
            lemma_objc_step_keys(mid, children.last(), superclass, with_generics);
        }
    }
}

/// A recorded key names a property child that recorded it.
pub proof fn lemma_recorded_key_witness(children: Seq<Entity>, k: (bool, Seq<char>))
    requires
        spec_recorded_keys(children).contains(k),
    ensures
        exists|j: int|
            0 <= j < children.len() && #[trigger] spec_property_keys(children[j]).contains(k),
    decreases children.len(),
{
    if children.len() > 0 {
        if spec_property_keys(children.last()).contains(k) {
            assert(spec_property_keys(children[children.len() - 1]).contains(k));
        } else {
            lemma_recorded_key_witness(children.drop_last(), k);
            let j = choose|j: int|
                0 <= j < children.drop_last().len() && #[trigger] spec_property_keys(
                    children.drop_last()[j],
                ).contains(k);
            assert(spec_property_keys(children[j]).contains(k));
        }
    }
}

/// Splitting a pass: folding `a + b` is folding `a`, then folding `b` from
/// where `a` left off.
pub proof fn lemma_objc_concat(
    a: Seq<Entity>,
    b: Seq<Entity>,
    superclass: bool,
    with_generics: bool,
    init: ObjcAccS,
)
    ensures
        spec_objc_children(a + b, superclass, with_generics, init) == (match spec_objc_children(
            a,
            superclass,
            with_generics,
            init,
        ) {
            Ok(acc) => spec_objc_children(b, superclass, with_generics, acc),
            Err(f) => Err(f),
        }),
    decreases b.len(),
{
    if b.len() == 0 {
        assert(a + b =~= a);
    } else {
        assert((a + b).drop_last() =~= a + b.drop_last());
        assert((a + b).last() == b.last());
        lemma_objc_concat(a, b.drop_last(), superclass, with_generics, init);
    }
}

/// Each pass step appends to the method list; it never rewrites it.
proof fn lemma_objc_step_methods_extend(
    acc: ObjcAccS,
    c: Entity,
    superclass: bool,
    with_generics: bool,
)
    ensures
        spec_objc_step(acc, c, superclass, with_generics) is Ok ==> acc.methods.is_prefix_of(
            spec_objc_step(acc, c, superclass, with_generics)->Ok_0.methods,
        ),
{
    if spec_objc_step(acc, c, superclass, with_generics) is Ok {
        let a2 = spec_objc_step(acc, c, superclass, with_generics)->Ok_0;
        assert(a2.methods.subrange(0, acc.methods.len() as int) =~= acc.methods);
    }
}

/// Across a whole pass the method list grows monotonically.
pub proof fn lemma_objc_methods_monotone(
    children: Seq<Entity>,
    superclass: bool,
    with_generics: bool,
    init: ObjcAccS,
)
    ensures
        spec_objc_children(children, superclass, with_generics, init) is Ok ==> init.methods
            .is_prefix_of(spec_objc_children(children, superclass, with_generics, init)->Ok_0.methods),
    decreases children.len(),
{
    if children.len() == 0 {
    } else {
        lemma_objc_methods_monotone(children.drop_last(), superclass, with_generics, init);
        if spec_objc_children(children.drop_last(), superclass, with_generics, init) is Ok {
            let mid = spec_objc_children(children.drop_last(), superclass, with_generics, init)->Ok_0;
            lemma_objc_step_methods_extend(mid, children.last(), superclass, with_generics);
            if spec_objc_children(children, superclass, with_generics, init) is Ok {
                let acc = spec_objc_children(children, superclass, with_generics, init)->Ok_0;
                assert(init.methods.is_prefix_of(mid.methods));
                assert(mid.methods.is_prefix_of(acc.methods));
                assert(init.methods =~= acc.methods.subrange(0, init.methods.len() as int));
            }
        }
    }
}

/// For every property, exactly the methods matching its recorded
/// getter/setter selector and class/instance flag are suppressed: a method
/// child suppressed by the pass always matches a key some earlier property
/// child recorded.
pub proof fn lemma_suppressed_method_matches_property(
    children: Seq<Entity>,
    superclass: bool,
    with_generics: bool,
    i: int,
    key: (bool, Seq<char>),
)
    requires
        0 <= i < children.len(),
        spec_objc_children(
            children.subrange(0, i),
            superclass,
            with_generics,
            spec_empty_acc(),
        ) is Ok,
        spec_objc_children(
            children.subrange(0, i),
            superclass,
            with_generics,
            spec_empty_acc(),
        )->Ok_0.properties.contains(key),
        spec_method_child_key(children[i]) == Some(key),
    ensures
        exists|j: int|
            0 <= j < i && #[trigger] spec_property_keys(children[j]).contains(key),
{
    let prefix = children.subrange(0, i);
    lemma_live_keys_recorded(prefix, superclass, with_generics, spec_empty_acc());
    lemma_recorded_key_witness(prefix, key);
    let j = choose|j: int|
        0 <= j < prefix.len() && #[trigger] spec_property_keys(prefix[j]).contains(key);
    assert(spec_property_keys(children[j]).contains(key));
}

/// Any method child whose selector no property child of the body records
/// is preserved untouched: its parsed descriptor stands in the pass's final
/// method list.
pub proof fn lemma_unrelated_method_preserved(
    children: Seq<Entity>,
    superclass: bool,
    with_generics: bool,
    i: int,
)
    requires
        0 <= i < children.len(),
        spec_objc_children(children, superclass, with_generics, spec_empty_acc()) is Ok,
        spec_method_child_key(children[i]) is Some,
        !spec_recorded_keys(children.subrange(0, i)).contains(
            spec_method_child_key(children[i])->Some_0,
        ),
        (match children[i].data {
            EntityData::ObjCInstanceMethodDecl { sighting } => sighting.parsed is Some,
            EntityData::ObjCClassMethodDecl { sighting } => sighting.parsed is Some,
            _ => false,
        }),
    ensures
        (match children[i].data {
            EntityData::ObjCInstanceMethodDecl { sighting } => {
                spec_objc_children(
                    children,
                    superclass,
                    with_generics,
                    spec_empty_acc(),
                )->Ok_0.methods.contains(sighting.parsed->Some_0.method@)
            },
            EntityData::ObjCClassMethodDecl { sighting } => {
                spec_objc_children(
                    children,
                    superclass,
                    with_generics,
                    spec_empty_acc(),
                )->Ok_0.methods.contains(sighting.parsed->Some_0.method@)
            },
            _ => true,
        }),
{
    let key = spec_method_child_key(children[i])->Some_0;
    let prefix = children.subrange(0, i);
    let one = seq![children[i]];
    let rest = children.subrange(i + 1, children.len() as int);
    assert(children =~= prefix + one + rest);

    lemma_objc_concat(prefix + one, rest, superclass, with_generics, spec_empty_acc());
    lemma_objc_concat(prefix, one, superclass, with_generics, spec_empty_acc());

    // the fold over the whole body is Ok, so the fold over the prefix is Ok
    let whole = spec_objc_children(children, superclass, with_generics, spec_empty_acc());
    let at_i = spec_objc_children(prefix, superclass, with_generics, spec_empty_acc());
    assert(at_i is Ok) by {
        if at_i is Err {
            assert(spec_objc_children(
                prefix + one,
                superclass,
                with_generics,
                spec_empty_acc(),
            ) == at_i);
            assert(whole == at_i);
        }
    }
    let acc_i = at_i->Ok_0;

    // the method child's key is not live at step `i`, so its descriptor is
    // appended there
    lemma_live_keys_recorded(prefix, superclass, with_generics, spec_empty_acc());
    assert(!acc_i.properties.contains(key));
    assert(one.drop_last() =~= Seq::<Entity>::empty());
    assert(one.last() == children[i]);
    let stepped = spec_objc_step(acc_i, children[i], superclass, with_generics);
    assert(spec_objc_children(Seq::<Entity>::empty(), superclass, with_generics, acc_i) == Ok::<
        ObjcAccS,
        FatalS,
    >(acc_i));
    assert(spec_objc_children(one, superclass, with_generics, acc_i) == stepped);
    let m = match children[i].data {
        EntityData::ObjCInstanceMethodDecl { sighting } => sighting.parsed->Some_0.method@,
        EntityData::ObjCClassMethodDecl { sighting } => sighting.parsed->Some_0.method@,
        _ => arbitrary(),
    };
    assert(stepped is Ok);
    let acc_next = stepped->Ok_0;
    assert(acc_next.methods == acc_i.methods.push(m));

    // every later step only appends, so the descriptor stays
    lemma_objc_methods_monotone(rest, superclass, with_generics, acc_next);
    let final_acc = whole->Ok_0;
    assert(spec_objc_children(rest, superclass, with_generics, acc_next) == whole);
    assert(acc_next.methods.is_prefix_of(final_acc.methods));
    let idx = acc_i.methods.len() as int;
    assert(acc_next.methods[idx] == m);
    assert(final_acc.methods[idx] == m);
    assert(final_acc.methods.contains(m));
}

// ---------------------------------------------------------------------------
// The class-body scenario
// ---------------------------------------------------------------------------

/// A class-body child that records no accessor key and emits no method:
/// anything but a property or method child.
pub open spec fn spec_member_inert(c: Entity) -> bool {
    &&& spec_method_child_key(c) is None
    &&& !(c.data matches EntityData::ObjCPropertyDecl { .. })
}

/// The property sighting a property child carries.
pub open spec fn spec_property_of(c: Entity) -> PropertySighting {
    match c.data {
        EntityData::ObjCPropertyDecl { property } => property,
        _ => arbitrary(),
    }
}

/// The method sighting a method child carries.
pub open spec fn spec_sighting_of(c: Entity) -> MethodSighting {
    match c.data {
        EntityData::ObjCInstanceMethodDecl { sighting } => sighting,
        EntityData::ObjCClassMethodDecl { sighting } => sighting,
        _ => arbitrary(),
    }
}

/// The accessor key a property child records for its getter.
pub open spec fn spec_getter_key(c: Entity) -> (bool, Seq<char>) {
    (spec_property_of(c).is_class, spec_property_of(c).getter_name@)
}

/// The accessor key a property child records for its setter.
pub open spec fn spec_setter_key(c: Entity) -> (bool, Seq<char>) {
    (spec_property_of(c).is_class, spec_property_of(c).setter_name->Some_0@)
}

/// Member-inert children pass through the merge without touching the
/// recorded keys, the method list or the designated-initializer list.
pub proof fn lemma_member_inert_fold(
    children: Seq<Entity>,
    superclass: bool,
    with_generics: bool,
    init: ObjcAccS,
)
    requires
        forall|j: int| 0 <= j < children.len() ==> spec_member_inert(#[trigger] children[j]),
    ensures
        spec_objc_children(children, superclass, with_generics, init) is Ok,
        spec_objc_children(children, superclass, with_generics, init)->Ok_0.properties == init
            .properties,
        spec_objc_children(children, superclass, with_generics, init)->Ok_0.methods == init
            .methods,
        spec_objc_children(
            children,
            superclass,
            with_generics,
            init,
        )->Ok_0.designated_initializers == init.designated_initializers,
    decreases children.len(),
{
    if children.len() > 0 {
        assert forall|j: int|
            0 <= j < children.drop_last().len() implies spec_member_inert(
            #[trigger] children.drop_last()[j],
        ) by {
            assert(children.drop_last()[j] == children[j]);
        }
        lemma_member_inert_fold(children.drop_last(), superclass, with_generics, init);
        let mid = spec_objc_children(children.drop_last(), superclass, with_generics, init)->Ok_0;
        assert(spec_member_inert(children[children.len() - 1]));
        assert(spec_objc_step(mid, children.last(), superclass, with_generics) is Ok);
    }
}

/// The class-body scenario, in general: after any run of member-inert
/// children, a read-only property, a read-write property, one synthesized
/// accessor method per recorded selector, and one explicit method whose
/// selector matches no recorded key merge — in superclass mode — to
/// exactly three methods: the two parsed accessors, then the explicit
/// method. Every recorded property key is consumed, so the pass closes
/// without an unmatched-property report.
pub proof fn lemma_class_body_scenario(
    e: Entity,
    others: Seq<Entity>,
    ro: Entity,
    rw: Entity,
    ro_accessor: Entity,
    rw_accessor: Entity,
    rw_mutator: Entity,
    explicit: Entity,
)
    requires
        e.children@ == others + seq![ro, rw, ro_accessor, rw_accessor, rw_mutator, explicit],
        forall|j: int| 0 <= j < others.len() ==> spec_member_inert(#[trigger] others[j]),
        // one read-only property: a getter descriptor, no setter selector
        ro.data matches EntityData::ObjCPropertyDecl { .. },
        spec_property_of(ro).setter_name is None,
        spec_property_of(ro).getter is Some,
        spec_property_of(ro).setter is None,
        // one read-write property: both selectors recorded, one getter
        // descriptor produced
        rw.data matches EntityData::ObjCPropertyDecl { .. },
        spec_property_of(rw).setter_name is Some,
        spec_property_of(rw).getter is Some,
        spec_property_of(rw).setter is None,
        // the three recorded accessor keys are pairwise distinct
        spec_getter_key(ro) != spec_getter_key(rw),
        spec_getter_key(ro) != spec_setter_key(rw),
        spec_getter_key(rw) != spec_setter_key(rw),
        // the synthesized accessors match the recorded keys exactly
        spec_method_child_key(ro_accessor) == Some(spec_getter_key(ro)),
        spec_method_child_key(rw_accessor) == Some(spec_getter_key(rw)),
        spec_method_child_key(rw_mutator) == Some(spec_setter_key(rw)),
        // one explicit method with an unrelated selector
        spec_method_child_key(explicit) is Some,
        spec_method_child_key(explicit)->Some_0 != spec_getter_key(ro),
        spec_method_child_key(explicit)->Some_0 != spec_getter_key(rw),
        spec_method_child_key(explicit)->Some_0 != spec_setter_key(rw),
        spec_sighting_of(explicit).parsed is Some,
    ensures
        spec_objc_children(e.children@, true, true, spec_empty_acc()) is Ok,
        spec_objc_children(
            e.children@,
            true,
            true,
            spec_empty_acc(),
        )->Ok_0.properties == Seq::<(bool, Seq<char>)>::empty(),
        spec_parse_objc_decl(e, true, true) is Ok,
        spec_parse_objc_decl(e, true, true)->Ok_0.methods == seq![
            spec_property_of(ro).getter->Some_0@,
            spec_property_of(rw).getter->Some_0@,
            spec_sighting_of(explicit).parsed->Some_0.method@,
        ],
        spec_parse_objc_decl(e, true, true)->Ok_0.diags == spec_objc_children(
            e.children@,
            true,
            true,
            spec_empty_acc(),
        )->Ok_0.diags,
{
    let children = e.children@;
    let k1 = spec_getter_key(ro);
    let k2 = spec_getter_key(rw);
    let k3 = spec_setter_key(rw);
    let k4 = spec_method_child_key(explicit)->Some_0;

    let c1 = others + seq![ro];
    let c2 = others + seq![ro, rw];
    let c3 = others + seq![ro, rw, ro_accessor];
    let c4 = others + seq![ro, rw, ro_accessor, rw_accessor];
    let c5 = others + seq![ro, rw, ro_accessor, rw_accessor, rw_mutator];
    assert(c1.drop_last() =~= others);
    assert(c1.last() == ro);
    assert(c2.drop_last() =~= c1);
    assert(c2.last() == rw);
    assert(c3.drop_last() =~= c2);
    assert(c3.last() == ro_accessor);
    assert(c4.drop_last() =~= c3);
    assert(c4.last() == rw_accessor);
    assert(c5.drop_last() =~= c4);
    assert(c5.last() == rw_mutator);
    assert(children.drop_last() =~= c5);
    assert(children.last() == explicit);

    // the member-inert run leaves no keys and no methods
    lemma_member_inert_fold(others, true, true, spec_empty_acc());
    let a0 = spec_objc_children(others, true, true, spec_empty_acc())->Ok_0;
    assert(a0.properties.len() == 0);
    assert(a0.methods.len() == 0);

    // the read-only property records its getter key and emits its accessor
    assert(spec_objc_step(a0, ro, true, true) is Ok);
    let a1 = spec_objc_step(a0, ro, true, true)->Ok_0;
    assert(a1.properties =~= seq![k1]);
    assert(a1.methods =~= seq![spec_property_of(ro).getter->Some_0@]);
    assert(spec_objc_children(c1, true, true, spec_empty_acc()) == Ok::<ObjcAccS, FatalS>(a1));

    // the read-write property records both keys and emits its getter
    assert(!seq![k1].contains(k2)) by {
        if seq![k1].contains(k2) {
            let i = choose|i: int| 0 <= i < 1 && seq![k1][i] == k2;
        }
    }
    assert(!seq![k1, k2].contains(k3)) by {
        if seq![k1, k2].contains(k3) {
            let i = choose|i: int| 0 <= i < 2 && seq![k1, k2][i] == k3;
        }
    }
    assert(a1.properties.push(k2) =~= seq![k1, k2]);
    assert(spec_objc_step(a1, rw, true, true) is Ok);
    let a2 = spec_objc_step(a1, rw, true, true)->Ok_0;
    assert(a2.properties =~= seq![k1, k2, k3]);
    assert(a2.methods =~= seq![spec_property_of(ro).getter->Some_0@, spec_property_of(rw).getter->Some_0@]);
    assert(spec_objc_children(c2, true, true, spec_empty_acc()) == Ok::<ObjcAccS, FatalS>(a2));

    // each synthesized accessor is suppressed, consuming its key
    assert(a2.properties[0] == k1);
    assert(a2.properties.contains(k1));
    assert(spec_remove_first(a2.properties, k1) =~= seq![k2, k3]) by {
        assert(a2.properties.drop_first() =~= seq![k2, k3]);
    }
    assert(spec_objc_step(a2, ro_accessor, true, true) is Ok);
    let a3 = spec_objc_step(a2, ro_accessor, true, true)->Ok_0;
    assert(a3.properties =~= seq![k2, k3]);
    assert(a3.methods == a2.methods);
    assert(spec_objc_children(c3, true, true, spec_empty_acc()) == Ok::<ObjcAccS, FatalS>(a3));

    assert(a3.properties[0] == k2);
    assert(a3.properties.contains(k2));
    assert(spec_remove_first(a3.properties, k2) =~= seq![k3]) by {
        assert(a3.properties.drop_first() =~= seq![k3]);
    }
    assert(spec_objc_step(a3, rw_accessor, true, true) is Ok);
    let a4 = spec_objc_step(a3, rw_accessor, true, true)->Ok_0;
    assert(a4.properties =~= seq![k3]);
    assert(a4.methods == a3.methods);
    assert(spec_objc_children(c4, true, true, spec_empty_acc()) == Ok::<ObjcAccS, FatalS>(a4));

    assert(a4.properties[0] == k3);
    assert(a4.properties.contains(k3));
    assert(spec_remove_first(a4.properties, k3) =~= Seq::<(bool, Seq<char>)>::empty()) by {
        assert(a4.properties.drop_first() =~= Seq::<(bool, Seq<char>)>::empty());
    }
    assert(spec_objc_step(a4, rw_mutator, true, true) is Ok);
    let a5 = spec_objc_step(a4, rw_mutator, true, true)->Ok_0;
    assert(a5.properties =~= Seq::<(bool, Seq<char>)>::empty());
    assert(a5.methods == a4.methods);
    assert(spec_objc_children(c5, true, true, spec_empty_acc()) == Ok::<ObjcAccS, FatalS>(a5));

    // the explicit method's selector matches no live key and is appended
    assert(!a5.properties.contains(k4));
    assert(spec_objc_step(a5, explicit, true, true) is Ok);
    let a6 = spec_objc_step(a5, explicit, true, true)->Ok_0;
    assert(a6.properties =~= Seq::<(bool, Seq<char>)>::empty());
    assert(a6.methods =~= seq![
        spec_property_of(ro).getter->Some_0@,
        spec_property_of(rw).getter->Some_0@,
        spec_sighting_of(explicit).parsed->Some_0.method@,
    ]);
    assert(spec_objc_children(children, true, true, spec_empty_acc()) == Ok::<ObjcAccS, FatalS>(
        a6,
    ));
}


/// The full class scenario at the dispatcher: a class declaration with the
/// scenario body — not skipped, its definition kept — parses
/// class-declaration-first, carrying the resolved superclass chain, then
/// one conformance statement per conformed protocol, then the method set
/// holding exactly the three merged methods, with no unmatched-property
/// report.
pub proof fn lemma_class_scenario(
    e: Entity,
    ctx: Context,
    others: Seq<Entity>,
    ro: Entity,
    rw: Entity,
    ro_accessor: Entity,
    rw_accessor: Entity,
    rw_mutator: Entity,
    explicit: Entity,
)
    requires
        e.data matches EntityData::ObjCInterfaceDecl { name } && !spec_class_skipped(ctx, name@)
            && !spec_class_definition_skipped(ctx, name@),
        e.children@ == others + seq![ro, rw, ro_accessor, rw_accessor, rw_mutator, explicit],
        forall|j: int| 0 <= j < others.len() ==> spec_member_inert(#[trigger] others[j]),
        ro.data matches EntityData::ObjCPropertyDecl { .. },
        spec_property_of(ro).setter_name is None,
        spec_property_of(ro).getter is Some,
        spec_property_of(ro).setter is None,
        rw.data matches EntityData::ObjCPropertyDecl { .. },
        spec_property_of(rw).setter_name is Some,
        spec_property_of(rw).getter is Some,
        spec_property_of(rw).setter is None,
        spec_getter_key(ro) != spec_getter_key(rw),
        spec_getter_key(ro) != spec_setter_key(rw),
        spec_getter_key(rw) != spec_setter_key(rw),
        spec_method_child_key(ro_accessor) == Some(spec_getter_key(ro)),
        spec_method_child_key(rw_accessor) == Some(spec_getter_key(rw)),
        spec_method_child_key(rw_mutator) == Some(spec_setter_key(rw)),
        spec_method_child_key(explicit) is Some,
        spec_method_child_key(explicit)->Some_0 != spec_getter_key(ro),
        spec_method_child_key(explicit)->Some_0 != spec_getter_key(rw),
        spec_method_child_key(explicit)->Some_0 != spec_setter_key(rw),
        spec_sighting_of(explicit).parsed is Some,
    ensures
        spec_parse(e, ctx) is Ok,
        ({
            let p = spec_parse(e, ctx)->Ok_0;
            let d = spec_parse_objc_decl(e, true, true)->Ok_0;
            &&& p.stmts.len() == 2 + d.protocols.len()
            &&& (match p.stmts[0] {
                StmtS::ClassDecl { superclasses, .. } => (superclasses == spec_superclass_chain(
                    e,
                )),
                _ => false,
            })
            &&& (forall|j: int| 1 <= j < p.stmts.len() - 1 ==> p.stmts[j] is ProtocolImpl)
            &&& (match p.stmts.last() {
                StmtS::Methods { methods, category_name, .. } => {
                    &&& methods == seq![
                        spec_property_of(ro).getter->Some_0@,
                        spec_property_of(rw).getter->Some_0@,
                        spec_sighting_of(explicit).parsed->Some_0.method@,
                    ]
                    &&& category_name is None
                },
                _ => false,
            })
            &&& p.diags == d.diags
        }),
{
    lemma_class_body_scenario(e, others, ro, rw, ro_accessor, rw_accessor, rw_mutator, explicit);
    match e.data {
        EntityData::ObjCInterfaceDecl { name } => {
            let p = spec_parse(e, ctx)->Ok_0;
            let d = spec_parse_objc_decl(e, true, true)->Ok_0;
            let ty = crate::stmt::ClassRefS { name: name@, generics: d.generics };
            let impls = spec_protocol_impls(ty, e.availability@, d.protocols);
            assert(impls.len() == d.protocols.len());
            assert(p.stmts.len() == 2 + d.protocols.len());
            assert(p.stmts[0] is ClassDecl);
            assert forall|j: int| 1 <= j < p.stmts.len() - 1 implies p.stmts[j]
                is ProtocolImpl by {
                assert(p.stmts[j] == impls[j - 1]);
            }
            assert(p.stmts.last() is Methods);
        },
        _ => {},
    }
}

// ---------------------------------------------------------------------------
// Bit-field members
// ---------------------------------------------------------------------------

/// Whether a struct-body child is a bit-field member.
pub open spec fn spec_is_bit_field_member(c: Entity) -> bool {
    match c.data {
        EntityData::FieldDecl { is_bit_field, .. } => is_bit_field,
        _ => false,
    }
}

/// A pass over a struct body only completes when none of its children is a
/// bit-field member.
pub proof fn lemma_struct_ok_without_bit_fields(children: Seq<Entity>, init: StructAccS)
    ensures
        spec_struct_children(children, init) is Ok ==> forall|i: int|
            0 <= i < children.len() ==> !spec_is_bit_field_member(#[trigger] children[i]),
    decreases children.len(),
{
    if children.len() > 0 {
        lemma_struct_ok_without_bit_fields(children.drop_last(), init);
        if spec_struct_children(children, init) is Ok {
            assert forall|i: int|
                0 <= i < children.len() implies !spec_is_bit_field_member(
                #[trigger] children[i],
            ) by {
                if i < children.len() - 1 {
                    assert(children.drop_last()[i] == children[i]);
                }
            }
        }
    }
}

/// A struct member declared as a bit-field is unsound to expose directly:
/// a struct body holding one is fatal at struct-parse time, wherever the
/// member stands.
pub proof fn lemma_bit_field_member_fatal(e: Entity)
    requires
        exists|i: int|
            0 <= i < e.children@.len() && spec_is_bit_field_member(#[trigger] e.children@[i]),
    ensures
        spec_parse_struct(e) is Err,
{
    lemma_struct_ok_without_bit_fields(e.children@, crate::parse::spec_struct_empty_acc());
}

// ---------------------------------------------------------------------------
// Enum sightings
// ---------------------------------------------------------------------------

/// Of a duplicate forward/defining enum pair, only the defining node
/// produces anything: the dispatcher is inert on the forward sighting, so
/// parsing both sightings yields exactly what the defining node alone
/// yields — one enum statement at most — and re-running the dispatcher on
/// either node gives the same result again.
pub proof fn lemma_enum_pair_idempotent(forward: Entity, defining: Entity, ctx: Context)
    requires
        forward.data matches EntityData::EnumDecl { is_definition: false, .. },
        defining.data matches EntityData::EnumDecl { is_definition: true, .. },
    ensures
        spec_parse(forward, ctx) == Ok::<ParsedS, FatalS>(spec_parsed_empty()),
        spec_parse(defining, ctx) is Ok ==> spec_parse(defining, ctx)->Ok_0.stmts.len() <= 1,
        spec_parse(defining, ctx) is Ok ==> (forall|s: StmtS|
            spec_parse(defining, ctx)->Ok_0.stmts.contains(s) ==> s is EnumDecl),
{
    if spec_parse(defining, ctx) is Ok {
        let p = spec_parse(defining, ctx)->Ok_0;
        assert forall|s: StmtS| p.stmts.contains(s) implies s is EnumDecl by {
            let i = choose|i: int| 0 <= i < p.stmts.len() && p.stmts[i] == s;
        }
    }
}

// ---------------------------------------------------------------------------
// Skipped classes
// ---------------------------------------------------------------------------

/// A fully skipped class yields the empty statement sequence.
pub proof fn lemma_skipped_class_inert(e: Entity, ctx: Context)
    requires
        e.data matches EntityData::ObjCInterfaceDecl { name } && spec_class_skipped(ctx, name@),
    ensures
        spec_parse(e, ctx) == Ok::<ParsedS, FatalS>(spec_parsed_empty()),
{
}

/// A class whose definition alone is skipped keeps exactly its method set:
/// one statement, and it is a method-set statement — no class declaration
/// and no conformance statement is emitted.
pub proof fn lemma_definition_skipped_class_methods_only(e: Entity, ctx: Context)
    requires
        e.data matches EntityData::ObjCInterfaceDecl { name } && !spec_class_skipped(ctx, name@)
            && spec_class_definition_skipped(ctx, name@),
        spec_parse(e, ctx) is Ok,
    ensures
        spec_parse(e, ctx)->Ok_0.stmts.len() == 1,
        spec_parse(e, ctx)->Ok_0.stmts[0] is Methods,
{
}

/// The class statement a class declaration produces carries exactly the
/// resolved superclass chain of its node, immediate-first.
pub proof fn lemma_class_statement_carries_chain(e: Entity, ctx: Context)
    requires
        e.data matches EntityData::ObjCInterfaceDecl { name } && !spec_class_skipped(ctx, name@)
            && !spec_class_definition_skipped(ctx, name@),
        spec_parse(e, ctx) is Ok,
    ensures
        (match spec_parse(e, ctx)->Ok_0.stmts[0] {
            StmtS::ClassDecl { superclasses, .. } => superclasses == spec_superclass_chain(e),
            _ => false,
        }),
{
}

// ---------------------------------------------------------------------------
// Determinism
// ---------------------------------------------------------------------------

/// Rendering is a pure function of a statement's mathematical value: two
/// equal statements — however independently constructed — are renderable
/// alike, render to the same text, and fail with the same condition.
pub proof fn lemma_render_respects_equality(a: StmtS, b: StmtS)
    requires
        a == b,
    ensures
        spec_renderable(a) == spec_renderable(b),
        spec_render(a) == spec_render(b),
        spec_render_err(a) == spec_render_err(b),
{
}

/// Re-running the dispatcher on an unchanged node and table yields
/// structurally equal statement sequences: the outcome is a function of the
/// node and the override table alone, and the executable dispatcher is
/// bound to it by its contract.
pub proof fn lemma_dispatch_deterministic(e: Entity, ctx: Context, r1: ParsedS, r2: ParsedS)
    requires
        spec_parse(e, ctx) == Ok::<ParsedS, FatalS>(r1),
        spec_parse(e, ctx) == Ok::<ParsedS, FatalS>(r2),
    ensures
        r1 == r2,
{
}

} // verus!
