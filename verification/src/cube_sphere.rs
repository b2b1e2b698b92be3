//! A sphere made of the six faces of a cube, and the height maps that
//! raise its surface.

use vstd::prelude::*;
use crate::scalar::{Scalar, ONE_BITS, ZERO_BITS};

verus! {

/// `image::ImageError`, the reason why an image could not be loaded.
#[verifier::external_type_specification]
#[verifier::external_body]
pub struct ExImageError(image::ImageError);

/// A sphere by its radius and the number of cells along each side of a
/// face, with the least and greatest height of its hills as fractions of
/// the radius, and one height map for each face that has one.
#[derive(Debug, Clone)]
pub struct CubeSphere {
    pub radius: Scalar,
    pub subdivisions: u32,
    pub hill_params: [Scalar; 2],
    pub heightmaps: Vec<Option<image::DynamicImage>>,
}

impl CubeSphere {
    /// The height maps, face by face.
    pub open spec fn maps(&self) -> Seq<Option<image::DynamicImage>> {
        self.heightmaps@
    }

    /// Whether there is a place for the height map of each of the six
    /// faces.
    pub open spec fn well_formed(&self) -> bool {
        self.maps().len() == 6
    }

    /// A sphere without hills and without height maps.
    pub fn new(radius: Scalar, subdivisions: u32) -> (sphere: Self)
        ensures
            sphere.well_formed(),
            sphere.radius == radius,
            sphere.subdivisions == subdivisions,
            sphere.hill_params[0].bits == ZERO_BITS,
            sphere.hill_params[1].bits == ZERO_BITS,
            forall|n: int| 0 <= n < 6 ==> sphere.maps()[n] is None,
    {
        let mut heightmaps: Vec<Option<image::DynamicImage>> = Vec::new();
        let mut n: usize = 0;
        while n < 6
            invariant
                n <= 6,
                heightmaps@.len() == n,
                forall|k: int| 0 <= k < n ==> heightmaps@[k] is None,
            decreases 6 - n,
        {
            heightmaps.push(None);
            n = n + 1;
        }
        CubeSphere {
            radius,
            subdivisions,
            hill_params: [Scalar::zero(), Scalar::zero()],
            heightmaps,
        }
    }

    /// Sets the least and greatest height of the hills.
    pub fn set_hill_params(&mut self, min: Scalar, max: Scalar)
        ensures
            final(self).hill_params[0] == min,
            final(self).hill_params[1] == max,
            final(self).radius == old(self).radius,
            final(self).subdivisions == old(self).subdivisions,
            final(self).maps() == old(self).maps(),
    {
        self.hill_params = [min, max];
    }

    /// Takes over the height maps that were loaded. A face whose image
    /// failed to load keeps the height map it has. Returns the faces whose
    /// image failed to load, each with the reason.
    pub fn set_heightmaps_from_result(
        &mut self,
        hm: Vec<Result<image::DynamicImage, image::ImageError>>,
    ) -> (failed: Vec<(usize, image::ImageError)>)
        requires
            old(self).well_formed(),
            hm@.len() == 6,
        ensures
            final(self).well_formed(),
            final(self).radius == old(self).radius,
            final(self).subdivisions == old(self).subdivisions,
            final(self).hill_params == old(self).hill_params,
            forall|n: int|
                0 <= n < 6 ==> final(self).maps()[n] == match hm@[n] {
                    Ok(img) => Some(img),
                    Err(_) => old(self).maps()[n],
                },
            failed@ == failures(hm@),
    {
        let mut hm = hm;
        let mut failed: Vec<(usize, image::ImageError)> = Vec::new();
        let ghost given = hm@;
        let mut n: usize = 6;
        while n > 0
            invariant
                n <= 6,
                given.len() == 6,
                hm@ == given.take(n as int),
                self.heightmaps@.len() == 6,
                self.radius == old(self).radius,
                self.subdivisions == old(self).subdivisions,
                self.hill_params == old(self).hill_params,
                forall|k: int| 0 <= k < n ==> self.heightmaps@[k] == old(self).heightmaps@[k],
                forall|k: int|
                    n <= k < 6 ==> self.heightmaps@[k] == match given[k] {
                        Ok(img) => Some(img),
                        Err(_) => old(self).heightmaps@[k],
                    },
                failed@ == failures_from(given, n as int).reverse(),
            decreases n,
        {
            n = n - 1;
            let loaded = hm.pop();
            assert(loaded == Some(given[n as int]));
            assert(hm@ == given.take(n as int));
            match loaded {
                Some(Ok(img)) => {
                    self.heightmaps[n] = Some(img);
                },
                Some(Err(e)) => {
                    failed.push((n, e));
                    proof {
                        let before = failures_from(given, n + 1);
                        let now = failures_from(given, n as int);
                        assert(now == seq![(n, e)] + before);
                        assert(now.reverse() == before.reverse().push((n, e)));
                    }
                },
                None => {},
            }
        }
        let mut ordered: Vec<(usize, image::ImageError)> = Vec::new();
        let ghost backwards = failed@;
        while failed.len() > 0
            invariant
                failed@.len() <= backwards.len(),
                failed@ == backwards.take(failed@.len() as int),
                ordered@ == backwards.skip(failed@.len() as int).reverse(),
            decreases failed@.len(),
        {
            let ghost len = failed@.len() as int;
            match failed.pop() {
                Some(entry) => {
                    ordered.push(entry);
                    proof {
                        assert(backwards.skip(len - 1).reverse() == backwards.skip(len).reverse().push(
                            backwards[len - 1],
                        ));
                    }
                },
                None => {},
            }
        }
        proof {
            assert(backwards.skip(0) == backwards);
            assert(backwards.reverse() == failures_from(given, 0).reverse().reverse());
            assert(failures_from(given, 0).reverse().reverse() == failures_from(given, 0));
        }
        ordered
    }

    /// Takes over the first six of the given height maps, each for the
    /// face of its position; a face that is given none loses the one it
    /// has. Faces beyond the end of the list keep theirs.
    pub fn set_heightmaps(&mut self, hm: Vec<Option<image::DynamicImage>>)
        requires
            old(self).well_formed(),
        ensures
            final(self).well_formed(),
            final(self).radius == old(self).radius,
            final(self).subdivisions == old(self).subdivisions,
            final(self).hill_params == old(self).hill_params,
            forall|n: int|
                0 <= n < 6 ==> final(self).maps()[n] == if n < hm@.len() {
                    hm@[n]
                } else {
                    old(self).maps()[n]
                },
    {
        let mut hm = hm;
        let ghost given = hm@;
        while hm.len() > 0
            invariant
                hm@.len() <= given.len(),
                hm@ == given.take(hm@.len() as int),
                self.heightmaps@.len() == 6,
                self.radius == old(self).radius,
                self.subdivisions == old(self).subdivisions,
                self.hill_params == old(self).hill_params,
                forall|k: int|
                    0 <= k < 6 ==> self.heightmaps@[k] == if hm@.len() <= k < given.len() {
                        given[k]
                    } else {
                        old(self).heightmaps@[k]
                    },
            decreases hm@.len(),
        {
            let n: usize = hm.len() - 1;
            match hm.pop() {
                Some(map) => {
                    if n < 6 {
                        self.heightmaps[n] = map;
                    }
                },
                None => {},
            }
        }
    }

    /// The height map of face `n`.
    pub fn heightmap(&self, n: usize) -> (map: Option<&image::DynamicImage>)
        requires
            self.well_formed(),
        ensures
            map == if n < 6 {
                match self.maps()[n as int] {
                    Some(img) => Some(&img),
                    None => None,
                }
            } else {
                None
            },
    {
        if n < 6 {
            self.heightmaps[n].as_ref()
        } else {
            None
        }
    }
}

/// The faces from `from` on whose image failed to load, each with the
/// reason, in the order of the faces.
pub open spec fn failures_from(
    hm: Seq<Result<image::DynamicImage, image::ImageError>>,
    from: int,
) -> Seq<(usize, image::ImageError)>
    decreases hm.len() - from,
{
    if from < 0 || from >= hm.len() {
        Seq::empty()
    } else {
        (match hm[from] {
            Ok(_) => Seq::empty(),
            Err(e) => seq![(from as usize, e)],
        }) + failures_from(hm, from + 1)
    }
}

/// The faces whose image failed to load, each with the reason, in the
/// order of the faces.
pub open spec fn failures(hm: Seq<Result<image::DynamicImage, image::ImageError>>) -> Seq<
    (usize, image::ImageError),
> {
    failures_from(hm, 0)
}

impl Default for CubeSphere {
    /// The sphere of radius one with one cell to a face, without hills and
    /// without height maps.
    fn default() -> (sphere: Self)
        ensures
            sphere.well_formed(),
            sphere.radius.bits == ONE_BITS,
            sphere.subdivisions == 1,
            sphere.hill_params[0].bits == ZERO_BITS,
            sphere.hill_params[1].bits == ZERO_BITS,
            forall|n: int| 0 <= n < 6 ==> sphere.maps()[n] is None,
    {
        CubeSphere::new(Scalar::one(), 1)
    }
}

} // verus!
