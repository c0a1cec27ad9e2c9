//! Bounding boxes.

use crate::decimal::Decimal;
use vstd::prelude::*;
use vstd::string::StringExecFns;

verus! {

/// A rectangle between two corners, in degrees of longitude and latitude.
pub struct Bbox {
    pub min_lng: Decimal,
    pub min_lat: Decimal,
    pub max_lng: Decimal,
    pub max_lat: Decimal,
}

/// The model of a bounding box: its four bounds as number literals.
pub struct BboxView {
    pub min_lng: Seq<char>,
    pub min_lat: Seq<char>,
    pub max_lng: Seq<char>,
    pub max_lat: Seq<char>,
}

impl View for Bbox {
    type V = BboxView;

    open spec fn view(&self) -> BboxView {
        BboxView {
            min_lng: self.min_lng@,
            min_lat: self.min_lat@,
            max_lng: self.max_lng@,
            max_lat: self.max_lat@,
        }
    }
}

/// One vertex in well-known text: longitude, a space, latitude.
pub open spec fn vertex_text(lng: Seq<char>, lat: Seq<char>) -> Seq<char> {
    lng + " "@ + lat
}

/// The box as a polygon in well-known text: a closed ring of five vertices
/// that starts and ends at the minimum corner and passes the corners
/// (min, max), (max, max) and (max, min) in that order.
pub open spec fn wkt_text(b: BboxView) -> Seq<char> {
    "POLYGON(("@ + vertex_text(b.min_lng, b.min_lat) + ", "@ + vertex_text(b.min_lng, b.max_lat)
        + ", "@ + vertex_text(b.max_lng, b.max_lat) + ", "@ + vertex_text(b.max_lng, b.min_lat)
        + ", "@ + vertex_text(b.min_lng, b.min_lat) + "))"@
}

fn push_vertex(out: &mut String, lng: &Decimal, lat: &Decimal)
    ensures
        final(out)@ == old(out)@ + vertex_text(lng@, lat@),
{
    out.append(lng.as_text());
    out.append(" ");
    out.append(lat.as_text());
    assert(out@ == old(out)@ + vertex_text(lng@, lat@));
}

impl Bbox {
    pub fn new(min_lng: Decimal, min_lat: Decimal, max_lng: Decimal, max_lat: Decimal) -> (r: Self)
        ensures
            r@ == (BboxView {
                min_lng: min_lng@,
                min_lat: min_lat@,
                max_lng: max_lng@,
                max_lat: max_lat@,
            }),
    {
        Bbox { min_lng, min_lat, max_lng, max_lat }
    }

    /// The box as a polygon in well-known text.
    pub fn to_wkt(&self) -> (r: String)
        ensures
            r@ == wkt_text(self@),
    {
        let mut out = "POLYGON((".to_owned();
        push_vertex(&mut out, &self.min_lng, &self.min_lat);
        out.append(", ");
        push_vertex(&mut out, &self.min_lng, &self.max_lat);
        out.append(", ");
        push_vertex(&mut out, &self.max_lng, &self.max_lat);
        out.append(", ");
        push_vertex(&mut out, &self.max_lng, &self.min_lat);
        out.append(", ");
        push_vertex(&mut out, &self.min_lng, &self.min_lat);
        out.append("))");
        out
    }
}

} // verus!
