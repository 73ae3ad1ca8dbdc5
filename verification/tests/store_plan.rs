use synd::{DbLoad, db_load_plan};

#[test]
fn load_plans() {
    assert_eq!(db_load_plan(true, 0), DbLoad::Loaded);
    assert_eq!(db_load_plan(true, 10), DbLoad::Loaded);
    assert_eq!(db_load_plan(false, 0), DbLoad::Fresh { backup: false });
    assert_eq!(db_load_plan(false, 10), DbLoad::Fresh { backup: true });
}
