use cairo_impls::collections::{OrderedHashMap, OrderedHashSet};
use cairo_impls::facts::Inference;
use cairo_impls::ids::{
    GenericKind, GenericParamId, ImplId, ModuleFileId, ModuleId, SmolStrId, SubmoduleId,
    SyntaxStablePtrId, TypeId,
};
use cairo_impls::interner::Interner;
use cairo_impls::model::{GenericArgumentId, GenericParam, GenericParamType};
use cairo_impls::substitution::GenericSubstitution;
use cairo_impls::text::decimal_text;

#[test]
fn maps_keep_the_order_of_their_keys() {
    let mut map = OrderedHashMap::new();
    assert!(!map.insert(SmolStrId(2), 20));
    assert!(!map.insert(SmolStrId(1), 10));
    assert!(map.insert(SmolStrId(2), 21));
    assert_eq!(map.len(), 2);
    assert_eq!(map.get(&SmolStrId(2)), Some(&21));
    assert_eq!(map.get(&SmolStrId(3)), None);
    assert!(map.contains_key(&SmolStrId(1)));
    assert_eq!(map.entry_at(0), (&SmolStrId(2), &21));
    assert_eq!(map.entry_at(1), (&SmolStrId(1), &10));
}

#[test]
fn sets_keep_the_first_of_equal_members() {
    let mut set = OrderedHashSet::new();
    assert!(set.insert(SmolStrId(2)));
    assert!(!set.insert(SmolStrId(2)));
    set.extend(&vec![SmolStrId(1), SmolStrId(2), SmolStrId(3), SmolStrId(1)]);
    let members: Vec<SmolStrId> = (0..set.len()).map(|i| *set.at(i)).collect();
    assert_eq!(members, vec![SmolStrId(2), SmolStrId(1), SmolStrId(3)]);
    assert!(set.contains(&SmolStrId(3)));
    assert!(!set.contains(&SmolStrId(4)));
}

#[test]
fn interning_twice_gives_one_id() {
    let mut interner = Interner::new();
    let a = interner.intern(SmolStrId(7));
    let b = interner.intern(SmolStrId(8));
    assert_eq!(interner.intern(SmolStrId(7)), a);
    assert_ne!(a, b);
    assert_eq!(*interner.long(b), SmolStrId(8));
    assert_eq!(interner.len(), 2);
}

#[test]
fn numbers_are_written_in_decimal() {
    assert_eq!(decimal_text(0), "0");
    assert_eq!(decimal_text(907), "907");
    assert_eq!(decimal_text(u64::MAX), u64::MAX.to_string());
}

fn param(n: u64) -> GenericParam {
    GenericParam::Type(GenericParamType {
        id: GenericParamId {
            module_file_id: ModuleFileId(ModuleId::Submodule(SubmoduleId(0)), 0),
            stable_ptr: SyntaxStablePtrId(n),
            kind: GenericKind::Type,
            name: None,
        },
    })
}

#[test]
fn substitutions_pair_parameters_and_arguments() {
    let arg = |n: u64| GenericArgumentId::Type(TypeId(n));
    let first = GenericSubstitution::new(&vec![param(1), param(2)], &vec![arg(1), arg(2)]);
    assert_eq!(first.param_to_arg.get(&param(2).id()), Some(&arg(2)));
    assert_eq!(first.self_impl, None);
    let second = GenericSubstitution::new(&vec![param(2), param(3)], &vec![arg(5), arg(6)]);
    let both = GenericSubstitution::from_impl(ImplId(4)).concat(first).concat(second);
    assert_eq!(both.param_to_arg.len(), 3);
    assert_eq!(both.param_to_arg.get(&param(1).id()), Some(&arg(1)));
    assert_eq!(both.param_to_arg.get(&param(2).id()), Some(&arg(5)));
    assert_eq!(both.self_impl, Some(ImplId(4)));
}

#[test]
fn inference_rewrites_what_it_settled() {
    let mut types = OrderedHashMap::new();
    types.insert(TypeId(1), TypeId(2));
    let inference = Inference {
        types,
        concrete_traits: OrderedHashMap::new(),
        type_constraints: OrderedHashMap::new(),
    };
    assert_eq!(inference.rewrite_type(TypeId(1)), TypeId(2));
    assert_eq!(inference.rewrite_type(TypeId(3)), TypeId(3));
}
