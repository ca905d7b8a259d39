//! Rules for writing features to a GeoPackage layer: where the output goes,
//! and which layer field receives each attribute.

use vstd::prelude::*;

verus! {

/// The spatial reference used when none is given: WGS 84.
pub const DEFAULT_EPSG: u32 = 4326;

/// Why features cannot be written.
#[derive(Clone, Copy, Debug, PartialEq, Eq, Structural)]
pub enum SaveError {
    /// There is no feature to write.
    NoFeatures,
}

/// Where the features are written: the spatial reference code and the layer
/// name.
#[derive(Debug)]
pub struct SaveTarget<'a> {
    pub epsg: u32,
    pub layer_name: &'a str,
}

/// The output of writing `feature_count` features, with an optional spatial
/// reference code and layer name: no output without features; otherwise the
/// given code or WGS 84, and the given name or `layer`.
pub fn save_target<'a>(feature_count: usize, epsg: Option<u32>, layer_name: Option<&'a str>) -> (r: Result<
    SaveTarget<'a>,
    SaveError,
>)
    ensures
        feature_count == 0 <==> r is Err,
        r is Err ==> r == Err::<SaveTarget<'a>, SaveError>(SaveError::NoFeatures),
        r matches Ok(t) ==> {
            &&& t.epsg == match epsg {
                Some(code) => code,
                None => DEFAULT_EPSG,
            }
            &&& t.layer_name@ == match layer_name {
                Some(name) => name@,
                None => "layer"@,
            }
        },
{
    if feature_count == 0 {
        return Err(SaveError::NoFeatures);
    }
    let code = match epsg {
        Some(code) => code,
        None => DEFAULT_EPSG,
    };
    let name = match layer_name {
        Some(name) => name,
        None => "layer",
    };
    Ok(SaveTarget { epsg: code, layer_name: name })
}

/// The fields of an output layer, by name; a name found more than once
/// stands for its last field.
pub struct FieldTable {
    names: Vec<String>,
}

impl View for FieldTable {
    type V = Seq<Seq<char>>;

    closed spec fn view(&self) -> Seq<Seq<char>> {
        self.names@.map_values(|s: String| s@)
    }
}

/// `index` is the field that the name `name` stands for among `names`: the
/// last field of that name, or none.
pub open spec fn is_field_of(names: Seq<Seq<char>>, name: Seq<char>, index: Option<usize>) -> bool {
    match index {
        Some(i) => {
            &&& i < names.len()
            &&& names[i as int] == name
            &&& forall|j: int| i < j < names.len() ==> names[j] != name
        },
        None => forall|j: int| 0 <= j < names.len() ==> names[j] != name,
    }
}

impl FieldTable {
    /// The table of the layer fields `names`, in the layer's order.
    pub fn new(names: Vec<String>) -> (table: FieldTable)
        ensures
            table@ == names@.map_values(|s: String| s@),
    {
        FieldTable { names }
    }

    /// The index of the layer field that receives an attribute called `name`,
    /// or `None` when the layer has no such field and the attribute is left
    /// out.
    pub fn index_of(&self, name: &String) -> (index: Option<usize>)
        ensures
            is_field_of(self@, name@, index),
    {
        let mut i: usize = self.names.len();
        while i > 0
            invariant
                i <= self.names.len(),
                forall|j: int| i <= j < self@.len() ==> self@[j] != name@,
            decreases i,
        {
            i = i - 1;
            if self.names[i] == *name {
                return Some(i);
            }
        }
        None
    }
}

} // verus!
