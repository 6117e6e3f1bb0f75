use no3::graph::{CustomType, Type, Var};

/// A floating-point value as the library holds it: by the text that writes it.
fn float(f: f64) -> Var {
    Var::Float(f.to_string())
}

#[test]
fn test_str() {
    let str = "Hello, World!";
    let var: Var = str.into();
    assert_eq!(var.to_string(), "\"Hello, World!\"");
    assert_eq!(var.type_().to_string(), "String");
    assert_eq!(var.debug_string(), "String(\"Hello, World!\")");
}

#[test]
fn test_string() {
    let string = String::from("Hello, World!");
    let var_string: Var = string.into();
    assert_eq!(var_string.to_string(), "\"Hello, World!\"");
    assert_eq!(var_string, var_string);
    assert_eq!(var_string.type_().to_string(), "String");
}

#[test]
fn test_string_eq() {
    assert_eq!(Var::from("Hello, World!"), Var::from("Hello, World!"));
    assert_ne!(Var::from("Hello, World!"), Var::from("Hello!"));
    assert_ne!(Var::from("Hello, World!"), Var::from(0));
}

#[test]
fn test_bool() {
    let b = true;
    let var: Var = b.into();
    assert_eq!(var.to_string(), "true");
    assert_eq!(var.type_().to_string(), "Bool");
    assert_eq!(var.debug_string(), "Bool(true)");
}

#[test]
fn test_bool_eq() {
    assert_eq!(Var::from(true), Var::from(true));
    assert_ne!(Var::from(true), Var::from(false));
    assert_ne!(Var::from(true), Var::from(0));
}

#[test]
fn test_i32() {
    let i: i32 = 42;
    let var: Var = i.into();
    assert_eq!(Var::from(42i32).to_string(), "42");
    assert_eq!(var.type_().to_string(), "Int");
    assert_eq!(var.debug_string(), "Int(42)");
}

#[test]
fn test_i32_eq() {
    assert_eq!(Var::from(42), Var::from(42));
    assert_ne!(Var::from(42), Var::from(43));
    assert_ne!(Var::from(42), float(42.0));
    assert_ne!(Var::from(42), Var::from("42"));
}

#[test]
fn test_i64() {
    let i: i64 = 42;
    let var: Var = i.into();
    assert_eq!(var.to_string(), "42");
    assert_eq!(var.type_().to_string(), "Int");
    assert_eq!(var.debug_string(), "Int(42)");
}

#[test]
fn test_i64_eq() {
    assert_eq!(Var::from(42i64), Var::from(42i64));
    assert_ne!(Var::from(42i64), Var::from(43i64));
    assert_ne!(Var::from(42i64), float(42.0));
    assert_ne!(Var::from(42i64), Var::from("42"));
}

#[test]
fn test_u32() {
    let i: u32 = 42;
    let var: Var = i.into();
    assert_eq!(var.to_string(), "42");
    assert_eq!(var.type_().to_string(), "Int");
    assert_eq!(var.debug_string(), "Int(42)");
}

#[test]
fn test_u32_eq() {
    assert_eq!(Var::from(42u32), Var::from(42u32));
    assert_ne!(Var::from(42u32), Var::from(43u32));
    assert_ne!(Var::from(42u32), float(42.0));
    assert_ne!(Var::from(42u32), Var::from("42"));
}

#[test]
fn test_u64() {
    let i: u64 = 42;
    let var: Var = i.into();
    assert_eq!(var.to_string(), "42");
    assert_eq!(var.type_().to_string(), "Int");
    assert_eq!(var.debug_string(), "Int(42)");
}

#[test]
fn test_u64_eq() {
    assert_eq!(Var::from(42u64), Var::from(42u64));
    assert_ne!(Var::from(42u64), Var::from(43u64));
    assert_ne!(Var::from(42u64), float(42.0));
    assert_ne!(Var::from(42u64), Var::from("42"));
}

#[test]
fn test_f32() {
    let f: f32 = 2.0;
    let var: Var = float(f as f64);
    assert_eq!(var.to_string(), "2");
    assert_eq!(var.type_().to_string(), "Float");
    assert_eq!(var.debug_string(), "Float(2)");
}

#[test]
fn test_f32_eq() {
    assert_eq!(float(3.1f32 as f64), float(3.1f32 as f64));
    assert_ne!(float(3.1f32 as f64), float(3.2f32 as f64));
    assert_ne!(float(3.1f32 as f64), float(3.1));
    assert_ne!(float(3.1f32 as f64), Var::from("3.1"));
}

#[test]
fn test_f64() {
    let f: f64 = 3.1;
    let var: Var = float(f);
    assert_eq!(var.to_string(), "3.1");
    assert_eq!(var.type_().to_string(), "Float");
    assert_eq!(var.debug_string(), "Float(3.1)");
}

#[test]
fn test_f64_eq() {
    assert_eq!(float(3.1f64), float(3.1f64));
    assert_ne!(float(3.1f64), float(3.2f64));
    assert_ne!(float(3.1f64), Var::from("3.1"));
}

#[test]
fn test_custom() {
    let custom: CustomType = ("Point".to_string(), "(1, 2)".to_string());
    let var: Var = custom.into();
    assert_eq!(var.to_string(), "((1, 2): Point)");
    assert_eq!(var.type_().to_string(), "Custom(Point)");
    assert_eq!(var.debug_string(), "Point((1, 2))");

    let custom = ("Point", "(1, 2)");
    let var: Var = custom.into();
    assert_eq!(var.to_string(), "((1, 2): Point)");
    assert_eq!(var.type_().to_string(), "Custom(Point)");
    assert_eq!(var.debug_string(), "Point((1, 2))");
}

#[test]
fn test_custom_eq() {
    let custom1: CustomType = ("Point".to_string(), "(1, 2)".to_string());
    let custom2: CustomType = ("Point".to_string(), "(1, 2)".to_string());
    let custom3: CustomType = ("Point".to_string(), "(2, 3)".to_string());
    let custom4: CustomType = ("Vector".to_string(), "(1, 2)".to_string());
    assert_eq!(Var::from(custom1.clone()), Var::from(custom2));
    assert_ne!(Var::from(custom1.clone()), Var::from(custom3));
    assert_ne!(Var::from(custom1), Var::from(custom4));
    assert_ne!(Var::from(("Point", "(1, 2)")), Var::from(0));
}

#[test]
fn test_multi() {
    let multi_type = Type::Multi(vec![
        Type::Int,
        Type::String,
        Type::Custom("Point".to_string()),
    ]);
    assert_eq!(multi_type.to_string(), "[Int, String, Custom(Point)]");
}

#[test]
fn negative_and_extreme_integers_are_written_in_full() {
    assert_eq!(Var::from(-7i64).to_string(), "-7");
    assert_eq!(Var::from(0i64).to_string(), "0");
    assert_eq!(Var::from(i64::MIN).to_string(), "-9223372036854775808");
    assert_eq!(Var::from(i64::MAX).to_string(), "9223372036854775807");
    assert_eq!(Var::from(u64::MAX).to_string(), "-1");
}

#[test]
fn values_convert_back_to_what_they_hold() {
    let text: Result<String, Var> = Var::from("a").try_into();
    assert_eq!(text, Ok("a".to_string()));
    let flag: Result<bool, Var> = Var::from(true).try_into();
    assert_eq!(flag, Ok(true));
    let number: Result<i64, Var> = Var::from(5i64).try_into();
    assert_eq!(number, Ok(5));
    let wrong: Result<bool, Var> = Var::from(5i64).try_into();
    assert_eq!(wrong, Err(Var::Int(5)));
    let narrow: Result<u32, Var> = Var::from(-1i64).try_into();
    assert_eq!(narrow, Ok(u32::MAX));
}

#[test]
fn types_compare_by_what_they_name() {
    assert!(Type::Custom("A".to_string()) == Type::Custom("A".to_string()));
    assert!(Type::Custom("A".to_string()) != Type::Custom("B".to_string()));
    assert!(Type::Multi(vec![Type::Int, Type::Bool]) == Type::Multi(vec![Type::Int, Type::Bool]));
    assert!(Type::Multi(vec![Type::Int, Type::Bool]) != Type::Multi(vec![Type::Bool, Type::Int]));
    assert!(Type::Multi(vec![Type::Int]) != Type::Int);
    assert_eq!(Type::Multi(vec![]).to_string(), "[]");
    assert_eq!(Type::Multi(vec![Type::Multi(vec![Type::Float])]).to_string(), "[[Float]]");
    let copy = Type::Multi(vec![Type::Custom("P".to_string())]).clone();
    assert!(copy == Type::Multi(vec![Type::Custom("P".to_string())]));
}
