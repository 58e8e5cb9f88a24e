use vstd::prelude::*;

verus! {

/// Usage text of the command-line front end: the argument form and the JSON
/// configuration format it consumes.  Loading and parsing that configuration
/// is the front end's business, not this library's; the text is kept here so
/// every caller prints the same contract.
pub fn help() -> (r: String)
    ensures
        r@ == r#"
the arguments must have this form
    <path to this program> -config <path to your json configuration> -hmap <path to the height map>
the input JSON must have the following format:
{
    "tool shape" : {
        "shape" : "flat",
        "rayon" : 1.2e-2
    },
    "flight height" : 1e-3,
    "vertical speed" : 1e-3,
    "horizontal work speed" : 1e-3,
    "horizontal fly speed" : 1e-2,
    "depth" : 1.5e-3,
    "width" : 1e-2,
    "height": 2e-2,
    "normalizing" : "false"
}

with
- "tool shape" a description of the tool with two or three inputs:
    . "shape": the shape of the CNC bit, it can be "flat", "ball" or "v"
    . "rayon": the rayon of the CNC bit as float in `m`
    . "angle": the angle of the CNC bit if "shape" map to "v" as float in radian
- "vertical speed" is the vertical speed of the CNC bit as float in `m / s`
- "horizontal fly speed" is the horizontal speed of the CNC bit above the object to be engraved as float in `m / s`
- "horizontal work speed" is the horizontal speed of the CNC bit insides the object to be engraved as float in `m / s`
- "deep" is the maximum engraving depth as float in `m`
- "width" is the size along the x-axis of the engraved object as float in `m`
- "height" is the size along the y-axis of the engraved object as float in `m`
- "normalizing", if "true" then the depth is normalized using the maximal depth in the input image
- "flight height" :  height (along z-axis) of the CNC wick in the flight phases
"#@,
{
    let text: &str = r#"
the arguments must have this form
    <path to this program> -config <path to your json configuration> -hmap <path to the height map>
the input JSON must have the following format:
{
    "tool shape" : {
        "shape" : "flat",
        "rayon" : 1.2e-2
    },
    "flight height" : 1e-3,
    "vertical speed" : 1e-3,
    "horizontal work speed" : 1e-3,
    "horizontal fly speed" : 1e-2,
    "depth" : 1.5e-3,
    "width" : 1e-2,
    "height": 2e-2,
    "normalizing" : "false"
}

with
- "tool shape" a description of the tool with two or three inputs:
    . "shape": the shape of the CNC bit, it can be "flat", "ball" or "v"
    . "rayon": the rayon of the CNC bit as float in `m`
    . "angle": the angle of the CNC bit if "shape" map to "v" as float in radian
- "vertical speed" is the vertical speed of the CNC bit as float in `m / s`
- "horizontal fly speed" is the horizontal speed of the CNC bit above the object to be engraved as float in `m / s`
- "horizontal work speed" is the horizontal speed of the CNC bit insides the object to be engraved as float in `m / s`
- "deep" is the maximum engraving depth as float in `m`
- "width" is the size along the x-axis of the engraved object as float in `m`
- "height" is the size along the y-axis of the engraved object as float in `m`
- "normalizing", if "true" then the depth is normalized using the maximal depth in the input image
- "flight height" :  height (along z-axis) of the CNC wick in the flight phases
"#;
    text.to_owned()
}

} // verus!
