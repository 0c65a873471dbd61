use vstd::prelude::*;
use vstd::string::StringSliceAdditionalSpecFns;

verus! {

/// The named continuous colour gradients a heatmap can be drawn with.
#[derive(Clone, Copy, Debug, PartialEq, Eq, Structural)]
pub enum ColorScheme {
    Turbo,
    Inferno,
    Warm,
    Cool,
    Oranges,
    Spectral,
}

/// The display name of a colour scheme, as ASCII bytes.
pub open spec fn scheme_name(c: ColorScheme) -> Seq<u8> {
    match c {
        ColorScheme::Turbo => seq![84u8, 117, 114, 98, 111],
        ColorScheme::Inferno => seq![73u8, 110, 102, 101, 114, 110, 111],
        ColorScheme::Warm => seq![87u8, 97, 114, 109],
        ColorScheme::Cool => seq![67u8, 111, 111, 108],
        ColorScheme::Oranges => seq![79u8, 114, 97, 110, 103, 101, 115],
        ColorScheme::Spectral => seq![83u8, 112, 101, 99, 116, 114, 97, 108],
    }
}

fn name_bytes(c: ColorScheme) -> (r: Vec<u8>)
    ensures
        r@ == scheme_name(c),
{
    let v: Vec<u8> = match c {
        ColorScheme::Turbo => vec![84u8, 117, 114, 98, 111],
        ColorScheme::Inferno => vec![73u8, 110, 102, 101, 114, 110, 111],
        ColorScheme::Warm => vec![87u8, 97, 114, 109],
        ColorScheme::Cool => vec![67u8, 111, 111, 108],
        ColorScheme::Oranges => vec![79u8, 114, 97, 110, 103, 101, 115],
        ColorScheme::Spectral => vec![83u8, 112, 101, 99, 116, 114, 97, 108],
    };
    proof {
        assert(v@ =~= scheme_name(c));
    }
    v
}

fn bytes_equal(a: &[u8], b: &Vec<u8>) -> (r: bool)
    ensures
        r == (a@ == b@),
{
    if a.len() != b.len() {
        return false;
    }
    let mut i: usize = 0;
    while i < a.len()
        invariant
            a@.len() == b@.len(),
            i <= a@.len(),
            a@.take(i as int) == b@.take(i as int),
        decreases a@.len() - i,
    {
        if a[i] != b[i] {
            proof {
                assert(a@[i as int] != b@[i as int]);
            }
            return false;
        }
        proof {
            assert(a@.take(i as int + 1) =~= a@.take(i as int).push(a@[i as int]));
            assert(b@.take(i as int + 1) =~= b@.take(i as int).push(b@[i as int]));
        }
        i = i + 1;
    }
    proof {
        assert(a@ =~= a@.take(i as int));
        assert(b@ =~= b@.take(i as int));
    }
    true
}

impl ColorScheme {
    /// The scheme with display name `name`, or `InvalidColorScheme`.
    pub fn from_name(name: &str) -> (r: Result<ColorScheme, HeatmapError>)
        ensures
            r matches Ok(c) ==> scheme_name(c) == name.spec_bytes(),
            r is Err <==> (forall|c: ColorScheme| scheme_name(c) != name.spec_bytes()),
            r is Err ==> r == Err::<ColorScheme, HeatmapError>(HeatmapError::InvalidColorScheme),
    {
        let bytes = name.as_bytes();
        let all = [
            ColorScheme::Turbo,
            ColorScheme::Inferno,
            ColorScheme::Warm,
            ColorScheme::Cool,
            ColorScheme::Oranges,
            ColorScheme::Spectral,
        ];
        let mut i: usize = 0;
        while i < 6
            invariant
                i <= 6,
                all@ == seq![
                    ColorScheme::Turbo,
                    ColorScheme::Inferno,
                    ColorScheme::Warm,
                    ColorScheme::Cool,
                    ColorScheme::Oranges,
                    ColorScheme::Spectral,
                ],
                bytes@ == name.spec_bytes(),
                forall|j: int| 0 <= j < i ==> scheme_name(#[trigger] all@[j]) != name.spec_bytes(),
            decreases 6 - i,
        {
            let candidate = all[i];
            let expected = name_bytes(candidate);
            if bytes_equal(bytes, &expected) {
                return Ok(candidate);
            }
            i = i + 1;
        }
        proof {
            assert forall|c: ColorScheme| scheme_name(c) != name.spec_bytes() by {
                match c {
                    ColorScheme::Turbo => assert(all@[0] == c),
                    ColorScheme::Inferno => assert(all@[1] == c),
                    ColorScheme::Warm => assert(all@[2] == c),
                    ColorScheme::Cool => assert(all@[3] == c),
                    ColorScheme::Oranges => assert(all@[4] == c),
                    ColorScheme::Spectral => assert(all@[5] == c),
                }
            }
        }
        Err(HeatmapError::InvalidColorScheme)
    }
}

/// Why a heatmap could not be computed.
#[derive(Clone, Copy, Debug, PartialEq, Eq, Structural)]
pub enum HeatmapError {
    /// A colour scheme name outside the known set.
    InvalidColorScheme,
    /// The grid would have no cells, or more than can be addressed.
    InvalidDimensions,
}

/// Configuration of a heatmap.
#[derive(Clone, Copy, Debug, PartialEq, Eq, Structural)]
pub struct HeatmapOptions {
    /// Edge length of a grid cell, in meters.
    pub resolution: usize,
    /// Kernel radius, in grid cells.
    pub radius: usize,
    /// Whether the 3x3 neighbour-average pass runs.
    pub smoothing: bool,
    pub color_scheme: ColorScheme,
}

/// The values read back from the option controls.
#[derive(Clone, Copy, Debug, PartialEq, Eq, Structural)]
pub struct ControlSnapshot {
    pub resolution: usize,
    pub radius: usize,
    pub smoothing: bool,
    pub color_scheme: ColorScheme,
}

/// The default configuration.
pub open spec fn default_options() -> HeatmapOptions {
    HeatmapOptions { resolution: 10, radius: 3, smoothing: true, color_scheme: ColorScheme::Turbo }
}

impl HeatmapOptions {
    /// The default options: 10 m cells, radius 3, smoothing on, Turbo.
    pub fn new() -> (r: HeatmapOptions)
        ensures
            r == default_options(),
    {
        HeatmapOptions { resolution: 10, radius: 3, smoothing: true, color_scheme: ColorScheme::Turbo }
    }

    /// Options taken from live controls when they exist, else the defaults.
    pub fn from_controls(c: Option<ControlSnapshot>) -> (r: HeatmapOptions)
        ensures
            c is None ==> r == default_options(),
            c matches Some(s) ==> r == (HeatmapOptions {
                resolution: s.resolution,
                radius: s.radius,
                smoothing: s.smoothing,
                color_scheme: s.color_scheme,
            }),
    {
        match c {
            Some(s) => HeatmapOptions {
                resolution: s.resolution,
                radius: s.radius,
                smoothing: s.smoothing,
                color_scheme: s.color_scheme,
            },
            None => HeatmapOptions::new(),
        }
    }
}

} // verus!
