//! Data model of the OASIS format: named properties with typed values, geometric
//! elements, cells and the layout document.

use std::collections::HashMap;
use vstd::prelude::*;

verus! {

/// One value of an OASIS property. A value has exactly one kind, and no kind is
/// converted into another.
#[derive(Debug, Clone, PartialEq, Eq)]
pub enum PropertyValue {
    String(String),
    Integer(i64),
    /// A real number, held as the 64 bits of its IEEE 754 double-precision encoding,
    /// so that it is kept exactly. Two reals are equal where their bits are.
    Real(u64),
    Boolean(bool),
}

/// A property value in contracts: a string is given by its characters.
pub enum PropertyValueView {
    String(Seq<char>),
    Integer(i64),
    Real(u64),
    Boolean(bool),
}

impl DeepView for PropertyValue {
    type V = PropertyValueView;

    open spec fn deep_view(&self) -> PropertyValueView {
        match self {
            PropertyValue::String(text) => PropertyValueView::String(text@),
            PropertyValue::Integer(number) => PropertyValueView::Integer(*number),
            PropertyValue::Real(bits) => PropertyValueView::Real(*bits),
            PropertyValue::Boolean(flag) => PropertyValueView::Boolean(*flag),
        }
    }
}

/// An OASIS property: a name with a list of values. The list may be empty, and its
/// order is kept.
#[derive(Debug, Clone, PartialEq, Eq)]
pub struct Property {
    pub name: String,
    pub values: Vec<PropertyValue>,
}

/// A property in contracts: the characters of its name, and its values in their order.
pub struct PropertyView {
    pub name: Seq<char>,
    pub values: Seq<PropertyValueView>,
}

impl DeepView for Property {
    type V = PropertyView;

    open spec fn deep_view(&self) -> PropertyView {
        PropertyView { name: self.name@, values: self.values.deep_view() }
    }
}

/// How the two ends of a path are drawn relative to its centerline.
#[derive(Debug, Clone, Copy, PartialEq, Eq)]
pub enum ExtensionScheme {
    /// The path ends at its first and last point.
    Flush,
    /// The path goes on beyond each end by its half width.
    HalfWidth,
    /// The path goes on beyond its first point by `start` and beyond its last by `end`.
    Custom { start: i64, end: i64 },
}

/// How often and where an element is drawn again. The data model carries the
/// description as it was encoded and does not look into it.
#[derive(Debug, Clone, PartialEq, Eq)]
pub struct Repetition {
    pub encoded: Vec<u8>,
}

/// A rectangle of the given width and height with its lower left corner at `(x, y)`.
#[derive(Debug, Clone, PartialEq, Eq)]
pub struct Rectangle {
    pub layer: u32,
    pub datatype: u32,
    pub x: i64,
    pub y: i64,
    pub width: u64,
    pub height: u64,
    pub repetition: Option<Repetition>,
    pub properties: Vec<Property>,
}

/// A polygon at `(x, y)` whose vertices are given as offsets, in their order.
///
/// The points are kept as they are given: a last point that repeats the first is
/// neither added nor removed.
#[derive(Debug, Clone, PartialEq, Eq)]
pub struct Polygon {
    pub layer: u32,
    pub datatype: u32,
    pub x: i64,
    pub y: i64,
    pub points: Vec<(i64, i64)>,
    pub repetition: Option<Repetition>,
    pub properties: Vec<Property>,
}

/// A path at `(x, y)` along a centerline of points given as offsets, in their order.
/// It is drawn `half_width` wide to each side of the centerline.
#[derive(Debug, Clone, PartialEq, Eq)]
pub struct OPath {
    pub layer: u32,
    pub datatype: u32,
    pub x: i64,
    pub y: i64,
    pub half_width: u64,
    pub extension_scheme: ExtensionScheme,
    pub points: Vec<(i64, i64)>,
    pub repetition: Option<Repetition>,
    pub properties: Vec<Property>,
}

/// A cell drawn inside another cell at `(x, y)`, named by `cell_name`.
#[derive(Debug, Clone, PartialEq, Eq)]
pub struct Placement {
    pub cell_name: String,
    pub x: i64,
    pub y: i64,
    pub mirror: bool,
}

/// One element of a cell.
#[derive(Debug, Clone, PartialEq, Eq)]
pub enum OASISElement {
    Rectangle(Rectangle),
    Polygon(Polygon),
    Path(OPath),
    Placement(Placement),
}

/// A named cell: its elements in drawing order.
#[derive(Debug, Clone, PartialEq, Eq)]
pub struct OASISCell {
    pub name: String,
    pub elements: Vec<OASISElement>,
}

/// The names that a document registers, each under a number.
#[derive(Debug, Clone, PartialEq, Eq)]
pub struct NameTable {
    pub cell_names: HashMap<u32, String>,
}

/// A layout document: its version, its registered names and its cells in their order.
///
/// Registering a cell's name and adding the cell are two steps: neither does the
/// other.
#[derive(Debug, Clone, PartialEq, Eq)]
pub struct OASISFile {
    pub version: String,
    pub names: NameTable,
    pub cells: Vec<OASISCell>,
}

impl Rectangle {
    /// A rectangle without repetition and without properties.
    pub fn new(layer: u32, datatype: u32, x: i64, y: i64, width: u64, height: u64) -> (rectangle:
        Self)
        ensures
            rectangle.layer == layer,
            rectangle.datatype == datatype,
            rectangle.x == x,
            rectangle.y == y,
            rectangle.width == width,
            rectangle.height == height,
            rectangle.repetition is None,
            rectangle.properties@ == Seq::<Property>::empty(),
    {
        Rectangle {
            layer,
            datatype,
            x,
            y,
            width,
            height,
            repetition: None,
            properties: Vec::new(),
        }
    }
}

impl Polygon {
    /// A polygon with the given points, without repetition and without properties.
    pub fn new(layer: u32, datatype: u32, x: i64, y: i64, points: Vec<(i64, i64)>) -> (polygon:
        Self)
        ensures
            polygon.layer == layer,
            polygon.datatype == datatype,
            polygon.x == x,
            polygon.y == y,
            polygon.points@ == points@,
            polygon.repetition is None,
            polygon.properties@ == Seq::<Property>::empty(),
    {
        Polygon { layer, datatype, x, y, points, repetition: None, properties: Vec::new() }
    }

    /// Whether the last point repeats the first: a polygon of at least two points of
    /// which the first and the last are the same.
    pub fn is_closed(&self) -> (closed: bool)
        ensures
            closed == (self.points@.len() >= 2 && self.points@.first() == self.points@.last()),
    {
        let count: usize = self.points.len();
        if count < 2 {
            return false;
        }
        let first = self.points[0];
        let last = self.points[count - 1];
        first.0 == last.0 && first.1 == last.1
    }
}

impl OPath {
    /// A path with the given centerline, without repetition and without properties.
    pub fn new(
        layer: u32,
        datatype: u32,
        x: i64,
        y: i64,
        half_width: u64,
        extension_scheme: ExtensionScheme,
        points: Vec<(i64, i64)>,
    ) -> (path: Self)
        ensures
            path.layer == layer,
            path.datatype == datatype,
            path.x == x,
            path.y == y,
            path.half_width == half_width,
            path.extension_scheme == extension_scheme,
            path.points@ == points@,
            path.repetition is None,
            path.properties@ == Seq::<Property>::empty(),
    {
        OPath {
            layer,
            datatype,
            x,
            y,
            half_width,
            extension_scheme,
            points,
            repetition: None,
            properties: Vec::new(),
        }
    }

    /// The width of the path from side to side: twice its half width.
    pub fn total_width(&self) -> (width: u128)
        ensures
            width == 2 * self.half_width,
    {
        2 * (self.half_width as u128)
    }
}

impl Placement {
    /// A placement of the cell named `cell_name` at `(x, y)`.
    pub fn new(cell_name: String, x: i64, y: i64, mirror: bool) -> (placement: Self)
        ensures
            placement.cell_name == cell_name,
            placement.x == x,
            placement.y == y,
            placement.mirror == mirror,
    {
        Placement { cell_name, x, y, mirror }
    }
}

impl OASISCell {
    /// A cell of the given name without elements.
    pub fn new(name: String) -> (cell: Self)
        ensures
            cell.name == name,
            cell.elements@ == Seq::<OASISElement>::empty(),
    {
        OASISCell { name, elements: Vec::new() }
    }
}

impl NameTable {
    /// A table without names.
    pub fn new() -> (table: Self)
        ensures
            table.cell_names@ == Map::<u32, String>::empty(),
    {
        NameTable { cell_names: HashMap::new() }
    }
}

impl OASISFile {
    /// A document of version 1.0 without registered names and without cells.
    pub fn new() -> (file: Self)
        ensures
            file.version@ == "1.0"@,
            file.names.cell_names@ == Map::<u32, String>::empty(),
            file.cells@ == Seq::<OASISCell>::empty(),
    {
        OASISFile { version: "1.0".to_owned(), names: NameTable::new(), cells: Vec::new() }
    }
}

} // verus!
