//! The superclass resolver: given one class-like node, the resolved
//! immediate superclass plus the reference capturing its name and the
//! generic type arguments applied at the use site; absence signals a root
//! class and terminates chain-building.

use vstd::prelude::*;

use crate::ast::{Entity, EntityData};
use crate::stmt::{ClassDefReference, ClassRefS};

verus! {

/// The superclass reference sighted among `children`, if any: its name at
/// the use site and the referenced superclass declaration. A later sighting
/// replaces an earlier one.
pub open spec fn spec_superclass_of(children: Seq<Entity>) -> Option<(String, Entity)>
    decreases children.len(),
{
    if children.len() == 0 {
        None
    } else {
        match children.last().data {
            EntityData::ObjCSuperClassRef { name, referenced } => Some((name, *referenced)),
            _ => spec_superclass_of(children.drop_last()),
        }
    }
}

/// The generic type arguments applied at this use site: the names of all
/// type-reference children, in order.
pub open spec fn spec_generics_of(children: Seq<Entity>) -> Seq<Seq<char>>
    decreases children.len(),
{
    if children.len() == 0 {
        Seq::empty()
    } else {
        let init = spec_generics_of(children.drop_last());
        match children.last().data {
            EntityData::TypeRef { name } => init.push(name@),
            _ => init,
        }
    }
}

/// The resolved immediate superclass of a class-like node: the referenced
/// superclass entity plus a reference capturing its name and the generic
/// type arguments applied to it. `None` signals a root class.
pub open spec fn spec_parse_superclass(e: Entity) -> Option<(Entity, ClassRefS)> {
    match spec_superclass_of(e.children@) {
        None => None,
        Some((name, next)) => (Some(
            (next, ClassRefS { name: name@, generics: spec_generics_of(e.children@) }),
        )),
    }
}

/// The referenced superclass entity is structurally inside the node that
/// references it, so following superclass references always descends.
pub proof fn lemma_superclass_of_decreases(children: Seq<Entity>)
    ensures
        spec_superclass_of(children) matches Some(p) ==> decreases_to!(children => p.1),
    decreases children.len(),
{
    if children.len() > 0 {
        match children.last().data {
            EntityData::ObjCSuperClassRef { name, referenced } => {
                assert(decreases_to!(children => children.last()));
                assert(decreases_to!(children.last() => children.last().data));
                assert(decreases_to!(children.last().data => *referenced));
            },
            _ => {
                lemma_superclass_of_decreases(children.drop_last());
                assert(decreases_to!(children => children.drop_last()));
            },
        }
    }
}

/// Resolving a superclass yields a structurally smaller entity.
pub proof fn lemma_superclass_decreases(e: Entity)
    ensures
        spec_parse_superclass(e) matches Some(p) ==> decreases_to!(e => p.0),
{
    lemma_superclass_of_decreases(e.children@);
    if spec_parse_superclass(e) matches Some(p) {
        assert(decreases_to!(e => e.children));
        assert(decreases_to!(e.children => e.children@));
    }
}

/// The ordered superclass chain of a class-like node, immediate-first,
/// obtained by following each resolved superclass's own superclass
/// reference until none is left.
pub open spec fn spec_superclass_chain(e: Entity) -> Seq<ClassRefS>
    decreases e,
        via spec_superclass_chain_decreases
{
    match spec_parse_superclass(e) {
        None => Seq::empty(),
        Some(p) => seq![p.1] + spec_superclass_chain(p.0),
    }
}

#[via_fn]
proof fn spec_superclass_chain_decreases(e: Entity) {
    lemma_superclass_decreases(e);
}

/// The last entity reached by following superclass references from `e`: the
/// root of its superclass chain.
pub open spec fn spec_chain_terminal(e: Entity) -> Entity
    decreases e,
        via spec_chain_terminal_decreases
{
    match spec_parse_superclass(e) {
        None => e,
        Some(p) => spec_chain_terminal(p.0),
    }
}

#[via_fn]
proof fn spec_chain_terminal_decreases(e: Entity) {
    lemma_superclass_decreases(e);
}

/// One pass over the immediate children of a class-like node: the sighted
/// superclass reference, if any, together with the generic type arguments
/// applied at this use site.
pub(crate) fn parse_superclass<'a>(entity: &'a Entity) -> (r: Option<(&'a Entity, ClassDefReference)>)
    ensures
        match r {
            Some((next, sc)) => {
                &&& spec_parse_superclass(*entity) matches Some(p)
                &&& p.0 == *next
                &&& p.1 == sc@
            },
            None => spec_parse_superclass(*entity) is None,
        },
{
    let children = &entity.children;
    let mut superclass: Option<&'a Entity> = None;
    let mut generics: Vec<String> = Vec::new();

    let mut i: usize = 0;
    proof {
        assert(children@.subrange(0, 0) =~= Seq::<Entity>::empty());
    }
    while i < children.len()
        invariant
            i <= children.len(),
            children == &entity.children,
            generics.deep_view() == spec_generics_of(children@.subrange(0, i as int)),
            match superclass {
                Some(c) => {
                    &&& spec_superclass_of(children@.subrange(0, i as int)) matches Some(p)
                    &&& c.data matches EntityData::ObjCSuperClassRef { name, referenced }
                    &&& p.0 == name
                    &&& p.1 == *referenced
                },
                None => spec_superclass_of(children@.subrange(0, i as int)) is None,
            },
        decreases children.len() - i,
    {
        proof {
            assert(children@.subrange(0, i as int + 1).drop_last() =~= children@.subrange(
                0,
                i as int,
            ));
            assert(children@.subrange(0, i as int + 1).last() == children@[i as int]);
        }
        match &children[i].data {
            EntityData::ObjCSuperClassRef { .. } => {
                superclass = Some(&children[i]);
            },
            EntityData::TypeRef { name } => {
                generics.push(name.clone());
            },
            _ => {},
        }
        i = i + 1;
    }
    proof {
        assert(children@.subrange(0, children@.len() as int) =~= children@);
    }
    match superclass {
        Some(child) => {
            match &child.data {
                EntityData::ObjCSuperClassRef { name, referenced } => {
                    Some((&**referenced, ClassDefReference::new(name.clone(), generics)))
                },
                _ => {
                    proof {
                        assert(false);
                    }
                    None
                },
            }
        },
        None => None,
    }
}

/// Build the whole superclass chain of a class-like node, immediate-first.
pub(crate) fn superclass_chain(entity: &Entity) -> (r: Vec<ClassDefReference>)
    ensures
        r.deep_view() == spec_superclass_chain(*entity),
{
    let mut superclasses: Vec<ClassDefReference> = Vec::new();
    let mut superclass_entity: &Entity = entity;
    proof {
        assert(superclasses.deep_view() + spec_superclass_chain(*superclass_entity)
            =~= spec_superclass_chain(*entity));
    }
    loop
        invariant
            spec_superclass_chain(*entity) == superclasses.deep_view() + spec_superclass_chain(
                *superclass_entity,
            ),
        ensures
            spec_superclass_chain(*entity) == superclasses.deep_view() + spec_superclass_chain(
                *superclass_entity,
            ),
            spec_parse_superclass(*superclass_entity) is None,
        decreases *superclass_entity,
    {
        proof {
            lemma_superclass_decreases(*superclass_entity);
        }
        match parse_superclass(superclass_entity) {
            Some((next_entity, superclass)) => {
                let ghost prev = superclasses.deep_view();
                let ghost prev_entity = *superclass_entity;
                superclasses.push(superclass);
                superclass_entity = next_entity;
                proof {
                    assert(superclasses.deep_view() =~= prev.push(superclass@));
                    assert(spec_superclass_chain(prev_entity) == seq![superclass@]
                        + spec_superclass_chain(*superclass_entity));
                    assert(prev + (seq![superclass@] + spec_superclass_chain(*superclass_entity))
                        =~= prev.push(superclass@) + spec_superclass_chain(*superclass_entity));
                }
            },
            None => {
                proof {
                    assert(spec_superclass_chain(*superclass_entity) =~= Seq::<ClassRefS>::empty());
                    assert(superclasses.deep_view() + Seq::<ClassRefS>::empty()
                        =~= superclasses.deep_view());
                }
                break ;
            },
        }
    }
    superclasses
}

} // verus!
