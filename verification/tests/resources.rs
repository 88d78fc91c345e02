use hikari::resources::GraphResources;
use hikari::storage::Resource;

#[derive(Debug, PartialEq)]
struct Image(u32);
impl Resource for Image {
    type Metadata = (u32, u32);
}

#[test]
fn images_are_found_by_name_and_handle() {
    let mut resources: GraphResources<Image> = GraphResources::new();
    let color = resources.add_image(String::from("color"), Image(1), (800, 600));
    let depth = resources.add_image(String::from("depth"), Image(2), (400, 300));
    assert_eq!(resources.get_image(&color), Some(&Image(1)));
    assert_eq!(resources.get_image_by_name("depth"), Some(&Image(2)));
    assert_eq!(resources.get_image_with_size(&depth), Some((&Image(2), &(400, 300))));
    assert!(resources.get_image_handle("color") == Some(color));
    assert!(resources.get_image_handle("missing").is_none());
    assert_eq!(resources.get_image_by_name("missing"), None);
    let names: Vec<&str> = resources.image_handles().iter().map(|(n, _)| n.as_str()).collect();
    assert_eq!(names, vec!["color", "depth"]);
}
