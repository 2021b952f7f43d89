//! Layers and the records from which they are made.

use vstd::prelude::*;
use crate::color::Color;
use crate::geometry::{Geometry, Point, Rect, bounding_rect_of, rect_contains_point,
    geometry_contains_point, geometry_bounding_rect, geometry_is_hit_testable, is_hit_testable,
    rect_contains, geometry_contains};

verus! {

/// Identifies a layer. A store hands out each identifier once.
#[derive(Clone, Copy, Debug, PartialEq, Eq, Hash, Structural)]
pub struct LayerId(pub u64);

#[verifier::external_type_specification]
#[verifier::external_body]
pub struct ExJsonValue(serde_json::Value);

#[verifier::external_type_specification]
#[verifier::external_body]
#[verifier::reject_recursive_types(K)]
#[verifier::reject_recursive_types(V)]
pub struct ExJsonMap<K, V>(serde_json::Map<K, V>);

/// Free-form properties that accompany a layer.
pub type Metadata = serde_json::Map<String, serde_json::Value>;

/// The keys under which a metadata map holds a value.
pub uninterp spec fn metadata_keys(metadata: Metadata) -> Set<Seq<char>>;

/// Calls `serde_json::Map::new`, which makes a map without entries.
#[verifier::external_body]
fn empty_metadata() -> (metadata: Metadata)
    ensures
        metadata_keys(metadata) == Set::<Seq<char>>::empty(),
{
    serde_json::Map::new()
}

/// Why a layer could not be made from a geometry.
#[derive(Debug)]
pub enum LayerCreateError {
    /// The geometry has no bounding rectangle.
    BoundingBox,
    /// The geometry could not be brought into the target coordinate
    /// reference system; the text says why.
    Transform(String),
}

impl LayerCreateError {
    /// The error in words.
    pub fn message(&self) -> (text: String)
        ensures
            text@ == match *self {
                LayerCreateError::BoundingBox => "Could not generate bounding box"@,
                LayerCreateError::Transform(reason) => reason@,
            },
    {
        match self {
            LayerCreateError::BoundingBox => "Could not generate bounding box".to_owned(),
            LayerCreateError::Transform(reason) => reason.clone(),
        }
    }
}

/// A geometry together with its bounding rectangle.
#[derive(Debug)]
pub struct Feature {
    pub geometry: Geometry,
    pub bounding_rect: Rect,
}

impl Feature {
    /// The rectangle is the bounding rectangle of the geometry.
    pub open spec fn wf(self) -> bool {
        geometry_bounding_rect(self.geometry) == Some(self.bounding_rect)
    }

    /// The point lies in the bounding rectangle and in the geometry itself.
    /// A geometry in which `geo` cannot look for a point, for a coordinate
    /// that is not finite or for too many coordinates, contains none.
    pub open spec fn spec_contains(self, point: Point) -> bool {
        &&& rect_contains(self.bounding_rect, point)
        &&& geometry_is_hit_testable(self.geometry)
        &&& geometry_contains(self.geometry, point)
    }

    /// Pairs a geometry with its bounding rectangle; fails for a geometry
    /// that has none.
    pub fn from_geometry(geometry: Geometry) -> (result: Result<Feature, LayerCreateError>)
        ensures
            match geometry_bounding_rect(geometry) {
                Some(rect) => result == Ok::<Feature, LayerCreateError>(
                    (Feature { geometry, bounding_rect: rect }),
                ),
                None => result == Err::<Feature, LayerCreateError>(LayerCreateError::BoundingBox),
            },
            result is Ok ==> result->Ok_0.wf(),
    {
        match bounding_rect_of(&geometry) {
            Some(bounding_rect) => Ok(Feature { geometry, bounding_rect }),
            None => Err(LayerCreateError::BoundingBox),
        }
    }

    /// Whether the point lies inside the feature. The exact test on the
    /// geometry is made only for a point inside the bounding rectangle, and
    /// only on a geometry in which `geo` can look for a point: any other
    /// geometry contains none.
    pub fn contains(&self, point: &Point) -> (inside: bool)
        ensures
            inside == self.spec_contains(*point),
    {
        rect_contains_point(&self.bounding_rect, point) && is_hit_testable(&self.geometry)
            && geometry_contains_point(&self.geometry, point)
    }
}

/// A layer that has not been given to a store yet.
#[derive(Debug)]
pub struct UnassignedLayer {
    pub projected_feature: Feature,
    pub unprojected_feature: Feature,
    pub metadata: Metadata,
    pub name: String,
    pub crs: String,
}

impl UnassignedLayer {
    /// Both features carry the bounding rectangle of their geometry.
    pub open spec fn wf(self) -> bool {
        self.projected_feature.wf() && self.unprojected_feature.wf()
    }

    /// The features that a geometry and its reprojection give, or the
    /// reason for which no layer can be made of them.
    pub open spec fn spec_features(
        geometry: Geometry,
        reprojected: Result<Geometry, String>,
    ) -> Result<(Feature, Feature), LayerCreateError> {
        match reprojected {
            Err(reason) => Err(LayerCreateError::Transform(reason)),
            Ok(projected) => match (
                geometry_bounding_rect(geometry),
                geometry_bounding_rect(projected),
            ) {
                (Some(unprojected_rect), Some(projected_rect)) => Ok(
                    (
                        Feature { geometry, bounding_rect: unprojected_rect },
                        Feature { geometry: projected, bounding_rect: projected_rect },
                    ),
                ),
                _ => Err(LayerCreateError::BoundingBox),
            },
        }
    }

    /// Makes a layer record from a geometry in its source coordinate
    /// reference system and the outcome of reprojecting it into the target
    /// one. A failed reprojection is passed on; a geometry without a
    /// bounding rectangle, before or after reprojection, is refused. Absent
    /// metadata become an empty map.
    pub fn from_geometry(
        geometry: Geometry,
        reprojected: Result<Geometry, String>,
        name: String,
        metadata: Option<Metadata>,
        source_crs: String,
    ) -> (result: Result<UnassignedLayer, LayerCreateError>)
        ensures
            match Self::spec_features(geometry, reprojected) {
                Err(error) => result == Err::<UnassignedLayer, LayerCreateError>(error),
                Ok((unprojected_feature, projected_feature)) => {
                    &&& result is Ok
                    &&& result->Ok_0.wf()
                    &&& result->Ok_0.unprojected_feature == unprojected_feature
                    &&& result->Ok_0.projected_feature == projected_feature
                    &&& result->Ok_0.name == name
                    &&& result->Ok_0.crs == source_crs
                    &&& match metadata {
                        Some(given) => result->Ok_0.metadata == given,
                        None => metadata_keys(result->Ok_0.metadata) == Set::<Seq<char>>::empty(),
                    }
                },
            },
    {
        let projected = match reprojected {
            Ok(projected) => projected,
            Err(reason) => {
                return Err(LayerCreateError::Transform(reason));
            },
        };
        let unprojected_feature = match Feature::from_geometry(geometry) {
            Ok(feature) => feature,
            Err(error) => {
                return Err(error);
            },
        };
        let projected_feature = match Feature::from_geometry(projected) {
            Ok(feature) => feature,
            Err(error) => {
                return Err(error);
            },
        };
        let metadata = match metadata {
            Some(metadata) => metadata,
            None => empty_metadata(),
        };
        Ok(UnassignedLayer { projected_feature, unprojected_feature, metadata, name, crs: source_crs })
    }
}

/// A layer of a store.
#[derive(Debug)]
pub struct Layer {
    pub unprojected_feature: Feature,
    pub projected_feature: Feature,
    pub color: Color,
    pub id: LayerId,
    pub name: String,
    pub metadata: Metadata,
    pub visible: bool,
    pub crs: String,
}

impl Layer {
    /// Both features carry the bounding rectangle of their geometry.
    pub open spec fn wf(self) -> bool {
        self.projected_feature.wf() && self.unprojected_feature.wf()
    }

    /// The point, given in projected coordinates, lies inside the layer.
    pub open spec fn spec_contains(self, point: Point) -> bool {
        self.projected_feature.spec_contains(point)
    }

    /// Whether the point, given in projected coordinates, lies inside the
    /// layer.
    pub fn contains(&self, point: &Point) -> (inside: bool)
        ensures
            inside == self.spec_contains(*point),
    {
        self.projected_feature.contains(point)
    }
}

} // verus!
