use raytracer::light::LightType;
use raytracer::material::MaterialType;
use raytracer::scene::Scene;

#[test]
fn scene_appends_in_order() {
    let mut scene: Scene<&str, &str> = Scene::new();
    scene.add_primitive("small sphere", 0);
    scene.add_primitive("large sphere", 1);
    scene.add_light("ambient");
    scene.add_lights(vec!["point a", "point b"]);
    assert_eq!(scene.primitives(), &vec!["small sphere", "large sphere"]);
    assert_eq!(scene.material_index(), &vec![0, 1]);
    assert_eq!(scene.lights(), &vec!["ambient", "point a", "point b"]);
}

#[test]
fn material_indices_checked_against_the_table() {
    let mut scene: Scene<u8, u8> = Scene::new();
    scene.add_primitive(1, 0);
    scene.add_primitive(2, 2);
    // Table of three materials: both indices valid.
    assert!(scene.materials_in_range(3));
    // Table of two: index 2 is the configuration error reported at render
    // entry.
    assert!(!scene.materials_in_range(2));
}

#[test]
fn empty_scene_is_valid_for_any_table() {
    let scene: Scene<u8, u8> = Scene::new();
    assert!(scene.materials_in_range(0));
    assert_eq!(scene.primitives().len(), 0);
    assert_eq!(scene.lights().len(), 0);
}

#[test]
fn kind_tags_distinguish_variants() {
    assert_eq!(MaterialType::Phong, MaterialType::Phong);
    assert_ne!(MaterialType::Phong, MaterialType::Reflective);
    assert_ne!(MaterialType::Refractive, MaterialType::PBR);
    assert_eq!(LightType::Ambient, LightType::Ambient);
    assert_ne!(LightType::Ambient, LightType::Point);
}
