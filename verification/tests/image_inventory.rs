use jellypilot_iced::image_inventory::{
    observed, ArtworkSurface, GridGeometry, Identity, ImageAxis, ImagePriority, ImageSpec, Inventory,
};
use jellypilot_iced::message::{BrowseMessage, Message};

fn identity() -> Identity {
    Identity {
        surface: ArtworkSurface::Home,
        epoch: 1,
        spec: ImageSpec { key: "poster".to_owned(), image_id: "first".to_owned(), rendition: 0 },
        axis: ImageAxis::Vertical,
    }
}

/// One measuring pass: each marker reports its image with the priority its
/// geometry gave it.
fn measure(inventory: &mut Inventory, markers: &[(Identity, Option<ImagePriority>)]) -> Vec<Message> {
    inventory.begin();
    for (image, priority) in markers {
        inventory.image(image, *priority);
    }
    inventory.finish();
    inventory.take_messages()
}

fn measure_grid(inventory: &mut Inventory, grid: GridGeometry) -> Vec<Message> {
    inventory.begin();
    inventory.measure_grid(grid);
    inventory.finish();
    inventory.take_messages()
}

fn observations(messages: Vec<Message>) -> Vec<(u64, String, Option<ImagePriority>)> {
    messages
        .into_iter()
        .map(|message| match message {
            Message::ImageObserved { epoch, spec, priority, .. } => (epoch, spec.image_id, priority),
            _ => panic!("unexpected geometry message"),
        })
        .collect()
}

const VISIBLE: Option<ImagePriority> = Some(ImagePriority::Visible);

#[test]
fn unchanged_geometry_is_silent_but_identity_epoch_resize_and_exit_publish() {
    let mut inventory = Inventory::new();
    let mut marker = identity();
    let mut changes = measure(&mut inventory, &[(marker.clone(), VISIBLE)]);
    assert!(measure(&mut inventory, &[(marker.clone(), VISIBLE)]).is_empty());
    marker.spec.image_id = "replacement".to_owned();
    changes.extend(measure(&mut inventory, &[(marker.clone(), VISIBLE)]));
    marker.epoch = 2;
    changes.extend(measure(&mut inventory, &[(marker.clone(), VISIBLE)]));
    // A shorter window leaves the marker one viewport ahead.
    changes.extend(measure(&mut inventory, &[(marker.clone(), Some(ImagePriority::Prefetch))]));
    // Moved far below the shorter window.
    changes.extend(measure(&mut inventory, &[(marker.clone(), None)]));
    assert_eq!(
        observations(changes),
        vec![
            (1, "first".into(), Some(ImagePriority::Visible)),
            (1, "first".into(), None),
            (1, "replacement".into(), Some(ImagePriority::Visible)),
            (1, "replacement".into(), None),
            (2, "replacement".into(), Some(ImagePriority::Visible)),
            (2, "replacement".into(), Some(ImagePriority::Prefetch)),
            (2, "replacement".into(), None),
        ]
    );
}

#[test]
fn destroyed_marker_revokes_only_its_position_of_a_shared_image() {
    let mut second = identity();
    second.spec.key = "second-position".to_owned();
    let mut markers = vec![(identity(), VISIBLE), (second, VISIBLE)];
    let mut inventory = Inventory::new();
    measure(&mut inventory, &markers);
    markers.remove(0);
    let changes = measure(&mut inventory, &markers);
    assert!(matches!(changes.as_slice(), [
      Message::ImageObserved { spec, priority: None, .. }
    ] if spec.key == "poster"));
    assert!(measure(&mut inventory, &markers).is_empty());
}

#[test]
fn skipped_traversal_revokes_and_restored_same_marker_readmits() {
    let mut inventory = Inventory::new();
    let markers = [(identity(), VISIBLE)];
    measure(&mut inventory, &markers);
    let mut changes = measure(&mut inventory, &[]);
    changes.extend(measure(&mut inventory, &markers));
    assert_eq!(
        observations(changes),
        vec![(1, "first".into(), None), (1, "first".into(), Some(ImagePriority::Visible))]
    );
}

#[test]
fn positional_reconciliation_keeps_moved_locations_and_removes_before_admission() {
    let mut second = identity();
    second.spec.key = "second-position".to_owned();
    second.spec.image_id = "second".to_owned();
    let mut markers = vec![(identity(), VISIBLE), (second, VISIBLE)];
    let mut inventory = Inventory::new();
    measure(&mut inventory, &markers);
    markers.swap(0, 1);
    assert!(measure(&mut inventory, &markers).is_empty());
    markers[1].0.spec.key = "third-position".to_owned();
    assert_eq!(
        observations(measure(&mut inventory, &markers)),
        vec![(1, "first".into(), None), (1, "first".into(), Some(ImagePriority::Visible))]
    );
}

fn grid(epoch: u64, offset_y: f32, height: f32) -> GridGeometry {
    GridGeometry { epoch, offset_y_bits: offset_y.to_bits(), height_bits: height.to_bits() }
}

fn grid_message(messages: &[Message]) -> Option<(u64, f32, f32)> {
    match messages {
        [Message::Browse(BrowseMessage::GridViewportMeasured { epoch, offset_y_bits, height_bits })] => {
            Some((*epoch, f32::from_bits(*offset_y_bits), f32::from_bits(*height_bits)))
        }
        _ => None,
    }
}

#[test]
fn sparse_grid_reports_signed_header_offset_and_full_parent_viewport() {
    let mut inventory = Inventory::new();
    let changes = measure_grid(&mut inventory, grid(7, -40.0, 100.0));
    assert_eq!(grid_message(&changes), Some((7, -40.0, 100.0)));
    assert!(measure_grid(&mut inventory, grid(7, -40.0, 100.0)).is_empty());
    let changes = measure_grid(&mut inventory, grid(7, 160.0, 100.0));
    assert_eq!(grid_message(&changes), Some((7, 160.0, 100.0)));
    let changes = measure_grid(&mut inventory, grid(8, 160.0, 100.0));
    assert!(matches!(grid_message(&changes), Some((8, _, _))));
}

#[test]
fn a_grid_that_reappears_is_published_again() {
    let mut inventory = Inventory::new();
    measure_grid(&mut inventory, grid(3, 0.0, 50.0));
    // A pass without the grid marker forgets the grid silently.
    assert!(measure(&mut inventory, &[]).is_empty());
    let changes = measure_grid(&mut inventory, grid(3, 0.0, 50.0));
    assert_eq!(grid_message(&changes), Some((3, 0.0, 50.0)));
}

#[test]
fn observed_carries_the_marker_identity() {
    let mut image = identity();
    image.surface = ArtworkSurface::Detail;
    image.epoch = 9;
    let message = observed(&image, Some(ImagePriority::Prefetch));
    assert!(matches!(
        message,
        Message::ImageObserved { surface: ArtworkSurface::Detail, epoch: 9, ref spec, priority: Some(ImagePriority::Prefetch) }
            if spec.key == "poster" && spec.image_id == "first"
    ));
}

#[test]
fn identities_compare_by_location_and_image() {
    let a = identity();
    let mut b = identity();
    assert!(a.same_location(&b) && a.same_image(&b));
    b.spec.image_id = "other".to_owned();
    assert!(a.same_location(&b) && !a.same_image(&b));
    b.epoch = 2;
    assert!(!a.same_location(&b));
    let mut c = identity();
    c.axis = ImageAxis::Horizontal;
    assert!(a.same_image(&c));
    c.spec.rendition = 1;
    assert!(!a.same_image(&c));
}

#[test]
fn grid_measurements_compare_as_floats() {
    let mut inventory = Inventory::new();
    measure_grid(&mut inventory, grid(5, 0.0, 80.0));
    // -0.0 equals 0.0: nothing to announce.
    assert!(measure_grid(&mut inventory, grid(5, -0.0, 80.0)).is_empty());
    assert!(measure_grid(&mut inventory, grid(5, 0.0, 80.0)).is_empty());
    // A NaN offset never equals the last one, so it is announced every pass.
    assert_eq!(grid_message(&measure_grid(&mut inventory, grid(5, f32::NAN, 80.0))).map(|g| g.0), Some(5));
    assert_eq!(grid_message(&measure_grid(&mut inventory, grid(5, f32::NAN, 80.0))).map(|g| g.0), Some(5));
}
