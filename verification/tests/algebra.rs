use bevy_bt_core::algebra::Argument;
use bevy_bt_core::algebra::ArgumentDiscriminant;
use bevy_bt_core::algebra::shape_eq;

#[test]
fn discriminant_of_scalars() {
    assert_eq!(
        Argument::Boolean(true).discriminant(),
        ArgumentDiscriminant::Boolean
    );
    assert_eq!(Argument::I32(-7).discriminant(), ArgumentDiscriminant::I32);
    assert_eq!(Argument::U64(9).discriminant(), ArgumentDiscriminant::U64);
    assert_eq!(
        Argument::UUID(340_282_366_920_938_463_463_374_607_431_768_211_455u128).discriminant(),
        ArgumentDiscriminant::UUID
    );
    assert_eq!(
        Argument::F32(1.5f32.to_bits()).discriminant(),
        ArgumentDiscriminant::F32
    );
    assert_eq!(
        Argument::String("hello".to_string()).discriminant(),
        ArgumentDiscriminant::String
    );
    assert_eq!(Argument::BoxedAny.discriminant(), ArgumentDiscriminant::BoxedAny);
    assert_eq!(Argument::Entity.discriminant(), ArgumentDiscriminant::Entity);
}

#[test]
fn discriminant_of_recursive_shapes() {
    let tuple = Argument::Tuple(vec![
        Argument::I32(1),
        Argument::String("s".to_string()),
        Argument::FixedArray(Box::new(Argument::Boolean(false)), 3),
    ]);
    assert_eq!(
        tuple.discriminant(),
        ArgumentDiscriminant::Tuple(vec![
            ArgumentDiscriminant::I32,
            ArgumentDiscriminant::String,
            ArgumentDiscriminant::FixedArray(Box::new(ArgumentDiscriminant::Boolean), 3),
        ])
    );
    let dynarr = Argument::DynamicArray(Box::new(ArgumentDiscriminant::U8), Some(16));
    assert_eq!(
        dynarr.discriminant(),
        ArgumentDiscriminant::DynamicArray(Box::new(ArgumentDiscriminant::U8), Some(16))
    );
    assert_eq!(
        Argument::UserStruct("Inv".to_string()).discriminant(),
        ArgumentDiscriminant::UserStruct("Inv".to_string())
    );
}

#[test]
fn shape_equality_is_structural() {
    let a = ArgumentDiscriminant::FixedArray(Box::new(ArgumentDiscriminant::I32), 3);
    let b = ArgumentDiscriminant::FixedArray(Box::new(ArgumentDiscriminant::I32), 3);
    let c = ArgumentDiscriminant::FixedArray(Box::new(ArgumentDiscriminant::I32), 4);
    let d = ArgumentDiscriminant::FixedArray(Box::new(ArgumentDiscriminant::I64), 3);
    assert!(shape_eq(&a, &b));
    assert!(!shape_eq(&a, &c));
    assert!(!shape_eq(&a, &d));
    assert!(!shape_eq(&a, &ArgumentDiscriminant::Boolean));

    let t1 = ArgumentDiscriminant::Tuple(vec![
        ArgumentDiscriminant::I8,
        ArgumentDiscriminant::String,
    ]);
    let t2 = ArgumentDiscriminant::Tuple(vec![
        ArgumentDiscriminant::I8,
        ArgumentDiscriminant::String,
    ]);
    let t3 = ArgumentDiscriminant::Tuple(vec![ArgumentDiscriminant::I8]);
    assert!(shape_eq(&t1, &t2));
    assert!(!shape_eq(&t1, &t3));

    let m1 = ArgumentDiscriminant::DynamicArray(Box::new(ArgumentDiscriminant::I32), Some(5));
    let m2 = ArgumentDiscriminant::DynamicArray(Box::new(ArgumentDiscriminant::I32), Some(5));
    let m3 = ArgumentDiscriminant::DynamicArray(Box::new(ArgumentDiscriminant::I32), None);
    assert!(shape_eq(&m1, &m2));
    assert!(!shape_eq(&m1, &m3));
}

#[test]
fn struct_references_compare_by_name_only() {
    let a = ArgumentDiscriminant::UserStruct("Inventory".to_string());
    let b = ArgumentDiscriminant::UserStruct("Inventory".to_string());
    let c = ArgumentDiscriminant::UserStruct("Other".to_string());
    assert!(shape_eq(&a, &b));
    assert!(!shape_eq(&a, &c));
}

#[test]
fn duplicate_keeps_shape() {
    let d = ArgumentDiscriminant::Tuple(vec![
        ArgumentDiscriminant::UserStruct("S".to_string()),
        ArgumentDiscriminant::DynamicArray(Box::new(ArgumentDiscriminant::U16), None),
    ]);
    let copy = d.duplicate();
    assert!(shape_eq(&d, &copy));
    assert_eq!(d, copy);
}
