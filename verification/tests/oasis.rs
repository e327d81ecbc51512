use laykit::oasis::{
    ExtensionScheme, NameTable, OASISCell, OASISElement, OASISFile, OPath, Placement, Polygon,
    Rectangle, Repetition,
};
use laykit::properties::OASISPropertyBuilder;

#[test]
fn path_reports_total_width() {
    let path = OPath::new(
        4,
        0,
        0,
        2500,
        50,
        ExtensionScheme::HalfWidth,
        vec![(0, 0), (1000, 500), (2000, 0), (3000, 500), (4000, 0)],
    );
    assert_eq!(path.half_width, 50);
    assert_eq!(path.total_width(), 100);
    assert_eq!(path.extension_scheme, ExtensionScheme::HalfWidth);
    assert_eq!(path.points.len(), 5);
}

#[test]
fn path_keeps_each_extension_scheme() {
    let schemes = [
        ExtensionScheme::Flush,
        ExtensionScheme::HalfWidth,
        ExtensionScheme::Custom { start: 5, end: -5 },
    ];
    for scheme in schemes {
        let path = OPath::new(1, 2, 3, 4, 50, scheme, vec![(0, 0), (10, 0)]);
        assert_eq!(path.extension_scheme, scheme);
        assert_eq!(path.total_width(), 100);
    }
}

#[test]
fn path_total_width_of_extreme_half_widths() {
    let none = OPath::new(0, 0, 0, 0, 0, ExtensionScheme::Flush, Vec::new());
    assert_eq!(none.total_width(), 0);
    let widest = OPath::new(0, 0, 0, 0, u64::MAX, ExtensionScheme::Flush, Vec::new());
    assert_eq!(widest.total_width(), 36_893_488_147_419_103_230u128);
}

#[test]
fn path_written_directly_reads_back() {
    let path = OPath {
        layer: 4,
        datatype: 0,
        x: 0,
        y: 2500,
        half_width: 50,
        extension_scheme: ExtensionScheme::Flush,
        points: vec![(0, 0), (1000, 500)],
        repetition: None,
        properties: Vec::new(),
    };
    assert_eq!(path.total_width(), 100);
    assert_eq!(path.extension_scheme, ExtensionScheme::Flush);
}

#[test]
fn polygon_keeps_its_points() {
    let polygon = Polygon::new(2, 0, 3000, 0, vec![(0, 0), (1000, 0), (500, 1000), (0, 0)]);
    assert_eq!(polygon.points.len(), 4);
    assert_eq!(polygon.points, vec![(0, 0), (1000, 0), (500, 1000), (0, 0)]);
    assert_eq!(polygon.layer, 2);
    assert_eq!(polygon.datatype, 0);
    assert_eq!(polygon.x, 3000);
    assert_eq!(polygon.y, 0);
    assert!(polygon.repetition.is_none());
    assert!(polygon.properties.is_empty());
}

#[test]
fn polygon_is_not_closed_for_it() {
    let open = Polygon::new(2, 0, 0, 0, vec![(0, 0), (1000, 0), (500, 1000)]);
    assert_eq!(open.points.len(), 3);
    assert!(!open.is_closed());
    let closed = Polygon::new(2, 0, 0, 0, vec![(0, 0), (1000, 0), (500, 1000), (0, 0)]);
    assert!(closed.is_closed());
}

#[test]
fn polygon_closedness_edge_cases() {
    assert!(!Polygon::new(0, 0, 0, 0, Vec::new()).is_closed());
    assert!(!Polygon::new(0, 0, 0, 0, vec![(1, 1)]).is_closed());
    assert!(Polygon::new(0, 0, 0, 0, vec![(1, 1), (1, 1)]).is_closed());
    assert!(!Polygon::new(0, 0, 0, 0, vec![(1, 1), (1, 2)]).is_closed());
    assert!(!Polygon::new(0, 0, 0, 0, vec![(1, 1), (2, 1)]).is_closed());
}

#[test]
fn rectangle_reads_back() {
    let rectangle = Rectangle::new(1, 0, -5, 7, 2000, 500);
    assert_eq!(rectangle.layer, 1);
    assert_eq!(rectangle.datatype, 0);
    assert_eq!(rectangle.x, -5);
    assert_eq!(rectangle.y, 7);
    assert_eq!(rectangle.width, 2000);
    assert_eq!(rectangle.height, 500);
    assert!(rectangle.repetition.is_none());
    assert!(rectangle.properties.is_empty());
}

#[test]
fn placement_reads_back() {
    let placement = Placement::new("SUB".to_string(), 10, -20, true);
    assert_eq!(placement.cell_name, "SUB");
    assert_eq!(placement.x, 10);
    assert_eq!(placement.y, -20);
    assert!(placement.mirror);
}

#[test]
fn element_carries_properties_and_repetition() {
    let mut rectangle = Rectangle::new(1, 0, 0, 0, 10, 10);
    rectangle.properties = OASISPropertyBuilder::new()
        .add_string("owner".to_string(), "top".to_string())
        .add_integer("rank".to_string(), 3)
        .build();
    rectangle.repetition = Some(Repetition { encoded: vec![1, 2, 3] });
    assert_eq!(rectangle.properties.len(), 2);
    assert_eq!(rectangle.properties[0].name, "owner");
    assert_eq!(rectangle.properties[1].name, "rank");
    assert_eq!(rectangle.repetition, Some(Repetition { encoded: vec![1, 2, 3] }));
}

#[test]
fn cell_keeps_elements_in_order() {
    let mut cell = OASISCell::new("TOP".to_string());
    assert_eq!(cell.name, "TOP");
    assert!(cell.elements.is_empty());
    cell.elements.push(OASISElement::Rectangle(Rectangle::new(1, 0, 0, 0, 2000, 2000)));
    cell.elements.push(OASISElement::Polygon(Polygon::new(
        2,
        0,
        3000,
        0,
        vec![(0, 0), (1000, 0), (500, 1000), (0, 0)],
    )));
    cell.elements.push(OASISElement::Path(OPath::new(
        4,
        0,
        0,
        2500,
        50,
        ExtensionScheme::HalfWidth,
        vec![(0, 0), (1000, 500)],
    )));
    cell.elements.push(OASISElement::Placement(Placement::new("SUB".to_string(), 0, 0, false)));
    assert_eq!(cell.elements.len(), 4);
    assert!(matches!(cell.elements[0], OASISElement::Rectangle(_)));
    assert!(matches!(cell.elements[1], OASISElement::Polygon(_)));
    assert!(matches!(cell.elements[2], OASISElement::Path(_)));
    assert!(matches!(cell.elements[3], OASISElement::Placement(_)));
}

#[test]
fn document_starts_empty() {
    let file = OASISFile::new();
    assert_eq!(file.version, "1.0");
    assert!(file.names.cell_names.is_empty());
    assert!(file.cells.is_empty());
    assert!(NameTable::new().cell_names.is_empty());
}

#[test]
fn document_does_not_register_names_by_itself() {
    let mut file = OASISFile::new();
    file.cells.push(OASISCell::new("TOP".to_string()));
    assert_eq!(file.cells.len(), 1);
    assert!(file.names.cell_names.is_empty());
    file.names.cell_names.insert(0, "TOP".to_string());
    assert_eq!(file.names.cell_names.get(&0).map(|name| name.as_str()), Some("TOP"));
    assert_eq!(file.names.cell_names.get(&1), None);
    assert_eq!(file.cells.len(), 1);
}
