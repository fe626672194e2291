use uuid_qr::qr::to_svg_document;
use uuid_qr::svg::{to_svg_string, QrModuleMatrix};
use uuid_qr::uuid;

const XML_HEADER: &str = "<?xml version=\"1.0\" encoding=\"UTF-8\"?>\n";
const DOCTYPE: &str = "<!DOCTYPE svg PUBLIC \"-//W3C//DTD SVG 1.1//EN\" \"http://www.w3.org/Graphics/SVG/1.1/DTD/svg11.dtd\">\n";
const RECT: &str = "\t<rect width=\"100%\" height=\"100%\" fill=\"#FFFFFF\"/>\n";

fn svg_open(dim: usize) -> String {
    format!(
        "<svg xmlns=\"http://www.w3.org/2000/svg\" version=\"1.1\" viewBox=\"0 0 {0} {0}\" stroke=\"none\">\n",
        dim
    )
}

fn whole_doc(dim: usize, path: &str) -> String {
    format!(
        "{}{}{}{}\t<path d=\"{}\" fill=\"#000000\"/>\n</svg>\n",
        XML_HEADER,
        DOCTYPE,
        svg_open(dim),
        RECT,
        path
    )
}

#[test]
fn empty_matrix_renders_minimal_document() {
    let m = QrModuleMatrix::new(0, vec![]).unwrap();
    let s = to_svg_string(&m, 4);
    assert_eq!(s, whole_doc(8, ""));
}

#[test]
fn single_dark_module_no_border() {
    let m = QrModuleMatrix::new(1, vec![true]).unwrap();
    let s = to_svg_string(&m, 0);
    assert_eq!(s, whole_doc(1, "M0,0h1v1h-1z"));
}

#[test]
fn two_by_two_diagonal_with_border() {
    let m = QrModuleMatrix::new(2, vec![true, false, false, true]).unwrap();
    let s = to_svg_string(&m, 4);
    assert_eq!(s, whole_doc(10, "M4,4h1v1h-1z M5,5h1v1h-1z"));
}

#[test]
fn all_light_matrix_has_empty_path() {
    let m = QrModuleMatrix::new(3, vec![false; 9]).unwrap();
    let s = to_svg_string(&m, 4);
    assert_eq!(s, whole_doc(11, ""));
}

#[test]
fn minimum_qr_size_checkerboard() {
    let side = 21;
    let modules: Vec<bool> = (0..side * side).map(|i| i % 2 == 0).collect();
    let dark = modules.iter().filter(|b| **b).count();
    let m = QrModuleMatrix::new(side, modules).unwrap();
    let s = to_svg_string(&m, 4);
    assert!(s.starts_with(XML_HEADER));
    assert!(s.contains("viewBox=\"0 0 29 29\""));
    assert!(s.ends_with("\" fill=\"#000000\"/>\n</svg>\n"));
    let subpaths = s.matches('M').count();
    assert_eq!(subpaths, dark);
    assert_eq!(dark, 221);
}

#[test]
fn matrix_constructor_rejects_bad_shapes() {
    assert!(QrModuleMatrix::new(2, vec![true; 3]).is_none());
    assert!(QrModuleMatrix::new(178, vec![false; 178 * 178]).is_none());
    assert!(QrModuleMatrix::new(21, vec![false; 441]).is_some());
}

#[test]
fn document_for_text_is_a_qr_rendering() {
    let s = to_svg_document("hello").unwrap();
    assert!(s.starts_with(XML_HEADER));
    assert!(s.ends_with("</svg>\n"));
    // The rendered symbol must have dark modules (the finder patterns), so
    // the path cannot be empty.
    assert!(s.matches('M').count() > 0);
    // The viewBox spans an odd QR side length plus a border of 4 a side.
    let tail = s.split("viewBox=\"0 0 ").nth(1).unwrap();
    let dim: usize = tail.split(' ').next().unwrap().parse().unwrap();
    assert!(dim >= 29);
    assert_eq!((dim - 8) % 2, 1);
}

#[test]
fn document_is_a_function_of_the_payload() {
    let a = to_svg_document("same payload").unwrap();
    let b = to_svg_document("same payload").unwrap();
    assert_eq!(a, b);
    let c = to_svg_document("other payload").unwrap();
    assert_ne!(a, c);
}

#[test]
fn document_fails_exactly_on_oversized_payloads() {
    // 5000 bytes exceed the capacity of every QR version at level Medium.
    let long = "a".repeat(5000);
    assert!(to_svg_document(&long).is_err());
    assert!(to_svg_document("").is_ok());
}

#[test]
fn uuid_round_trip_to_svg() {
    let u = uuid().unwrap();
    let s = to_svg_document(&u).unwrap();
    assert!(s.starts_with("<?xml version=\"1.0\" encoding=\"UTF-8\"?>"));
    assert!(s.contains("<path d=\"M"));
    assert!(s.ends_with("</svg>\n"));
}
