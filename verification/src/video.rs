//! Device/config resolver: given an enumeration snapshot of the capture
//! devices and the user's overrides, pick the capture source and resolution.
//!
//! Every (device, format, frame size) candidate that matches all explicitly
//! set overrides competes; the one with the most pixels wins, and among equal
//! pixel counts the first in enumeration order wins. A candidate may use the
//! camera's built-in encoder exactly when its format name case-insensitively
//! equals `H264`; otherwise the software-encode path is selected.
use vstd::prelude::*;

use crate::models::PipelineConfig;
use crate::sys::CapModel;
use crate::sys::Device;
use crate::sys::DeviceModel;
use crate::sys::FrameSize;
use crate::sys::device_models;

verus! {

/// The fully resolved capture configuration handed to the engine.
#[derive(Debug)]
pub struct Config {
    pub source: String,
    pub use_cam_builtin_encoder: bool,
    pub width: u32,
    pub height: u32,
}

/// Abstract value of a resolved configuration.
pub ghost struct ConfigModel {
    pub source: Seq<char>,
    pub use_cam_builtin_encoder: bool,
    pub width: u32,
    pub height: u32,
}

impl View for Config {
    type V = ConfigModel;

    open spec fn view(&self) -> ConfigModel {
        ConfigModel {
            source: self.source@,
            use_cam_builtin_encoder: self.use_cam_builtin_encoder,
            width: self.width,
            height: self.height,
        }
    }
}

/// The format name equals `H264` up to ASCII case. Four-character codes are
/// ASCII, so folding the single letter suffices.
pub open spec fn is_h264(format: Seq<char>) -> bool {
    &&& format.len() == 4
    &&& (format[0] == 'H' || format[0] == 'h')
    &&& format[1] == '2'
    &&& format[2] == '6'
    &&& format[3] == '4'
}

/// Whether a device format can feed the camera's built-in encoder.
pub fn format_supports_builtin_encoder(format: &str) -> (r: bool)
    ensures
        r == is_h264(format@),
{
    if format.unicode_len() != 4 {
        return false;
    }
    let c0 = format.get_char(0);
    (c0 == 'H' || c0 == 'h') && format.get_char(1) == '2' && format.get_char(2) == '6'
        && format.get_char(3) == '4'
}

/// The set override, or zero when unset.
pub open spec fn opt_or_zero(o: Option<u32>) -> u32 {
    match o {
        Some(v) => v,
        None => 0,
    }
}

/// The larger of two dimensions.
pub open spec fn max_u32(a: u32, b: u32) -> u32 {
    if a >= b {
        a
    } else {
        b
    }
}

/// The width and height a candidate frame size would be captured at: a
/// discrete size as it stands, a stepwise range stretched to its maximum or
/// to the explicit override if that is larger.
pub open spec fn dims_of(fs: FrameSize, cfg: PipelineConfig) -> (u32, u32) {
    match fs {
        FrameSize::Discrete { width, height } => (width, height),
        FrameSize::Stepwise { max_width, max_height } => (
            max_u32(opt_or_zero(cfg.width), max_width),
            max_u32(opt_or_zero(cfg.height), max_height),
        ),
    }
}

/// An explicitly set override must be matched exactly; an unset one admits
/// everything.
pub open spec fn override_ok<T>(value: T, setting: Option<T>) -> bool {
    setting is Some ==> value == setting->0
}

/// The source override as an abstract string.
pub open spec fn source_model(cfg: PipelineConfig) -> Option<Seq<char>> {
    match cfg.source {
        Some(s) => Some(s@),
        None => None,
    }
}

/// A (device, format, frame size) candidate competes exactly when it matches
/// every explicitly set override.
pub open spec fn size_eligible(
    path: Seq<char>,
    format: Seq<char>,
    fs: FrameSize,
    cfg: PipelineConfig,
) -> bool {
    &&& override_ok(path, source_model(cfg))
    &&& override_ok(is_h264(format), cfg.use_cam_builtin_encoder)
    &&& override_ok(dims_of(fs, cfg).0, cfg.width)
    &&& override_ok(dims_of(fs, cfg).1, cfg.height)
}

/// The figure of merit: the candidate's pixel count.
pub open spec fn pixels(w: u32, h: u32) -> int {
    (w as int) * (h as int)
}

/// The pixel count of a resolved configuration.
pub open spec fn best_pixels(b: ConfigModel) -> int {
    pixels(b.width, b.height)
}

/// Before any candidate is seen: no source, software path, zero pixels. A
/// candidate must beat zero pixels to be selected at all.
pub open spec fn initial_best() -> ConfigModel {
    ConfigModel {
        source: Seq::empty(),
        use_cam_builtin_encoder: false,
        width: 0,
        height: 0,
    }
}

/// Hold one candidate against the best so far: it wins exactly when it is
/// eligible and has strictly more pixels, so the first candidate of a given
/// pixel count is kept over later equals.
pub open spec fn consider(
    best: ConfigModel,
    path: Seq<char>,
    format: Seq<char>,
    fs: FrameSize,
    cfg: PipelineConfig,
) -> ConfigModel {
    if size_eligible(path, format, fs, cfg) && pixels(dims_of(fs, cfg).0, dims_of(fs, cfg).1)
        > best_pixels(best) {
        ConfigModel {
            source: path,
            use_cam_builtin_encoder: is_h264(format),
            width: dims_of(fs, cfg).0,
            height: dims_of(fs, cfg).1,
        }
    } else {
        best
    }
}

/// Fold one format's frame sizes, in order.
pub open spec fn fold_sizes(
    best: ConfigModel,
    path: Seq<char>,
    format: Seq<char>,
    sizes: Seq<FrameSize>,
    cfg: PipelineConfig,
) -> ConfigModel
    decreases sizes.len(),
{
    if sizes.len() == 0 {
        best
    } else {
        consider(
            fold_sizes(best, path, format, sizes.drop_last(), cfg),
            path,
            format,
            sizes.last(),
            cfg,
        )
    }
}

/// Fold one device's capabilities, in order.
pub open spec fn fold_caps(
    best: ConfigModel,
    path: Seq<char>,
    caps: Seq<CapModel>,
    cfg: PipelineConfig,
) -> ConfigModel
    decreases caps.len(),
{
    if caps.len() == 0 {
        best
    } else {
        fold_sizes(
            fold_caps(best, path, caps.drop_last(), cfg),
            path,
            caps.last().format,
            caps.last().resolution,
            cfg,
        )
    }
}

/// Fold an enumeration snapshot, in order.
pub open spec fn fold_devices(
    best: ConfigModel,
    devices: Seq<DeviceModel>,
    cfg: PipelineConfig,
) -> ConfigModel
    decreases devices.len(),
{
    if devices.len() == 0 {
        best
    } else {
        fold_caps(
            fold_devices(best, devices.drop_last(), cfg),
            devices.last().path,
            devices.last().capabilities,
            cfg,
        )
    }
}

/// The configuration the resolver selects for a snapshot and a set of
/// overrides.
pub open spec fn resolve(devices: Seq<DeviceModel>, cfg: PipelineConfig) -> ConfigModel {
    fold_devices(initial_best(), devices, cfg)
}

impl Config {
    /// Select the capture source and resolution: among the candidates that
    /// match every explicitly set override, the one with the most pixels,
    /// first found winning ties. With no winning candidate, the zero
    /// configuration comes back.
    pub fn find_optimal_settings(devices: &Vec<Device>, config: &PipelineConfig) -> (r: Config)
        ensures
            r@ == resolve(device_models(devices@), *config),
    {
        let ghost devs = device_models(devices@);
        let ghost cfg = *config;
        let mut best_source: String = String::new();
        let mut best_builtin: bool = false;
        let mut best_width: u32 = 0;
        let mut best_height: u32 = 0;
        let mut i: usize = 0;
        proof {
            assert(devs.take(0) =~= Seq::<DeviceModel>::empty());
        }
        while i < devices.len()
            invariant
                i <= devices@.len(),
                devs == device_models(devices@),
                cfg == *config,
                (ConfigModel {
                    source: best_source@,
                    use_cam_builtin_encoder: best_builtin,
                    width: best_width,
                    height: best_height,
                }) == fold_devices(initial_best(), devs.take(i as int), cfg),
            decreases devices@.len() - i,
        {
            let device = &devices[i];
            let ghost dev_m = devs[i as int];
            let ghost before_device = fold_devices(initial_best(), devs.take(i as int), cfg);
            let mut j: usize = 0;
            proof {
                assert(dev_m.capabilities.take(0) =~= Seq::<CapModel>::empty());
            }
            while j < device.capabilities.len()
                invariant
                    j <= device.capabilities@.len(),
                    devs == device_models(devices@),
                    cfg == *config,
                    i < devices@.len(),
                    device == &devices@[i as int],
                    dev_m == devs[i as int],
                    before_device == fold_devices(initial_best(), devs.take(i as int), cfg),
                    (ConfigModel {
                        source: best_source@,
                        use_cam_builtin_encoder: best_builtin,
                        width: best_width,
                        height: best_height,
                    }) == fold_caps(
                        before_device,
                        dev_m.path,
                        dev_m.capabilities.take(j as int),
                        cfg,
                    ),
                decreases device.capabilities@.len() - j,
            {
                let cap = &device.capabilities[j];
                let ghost cap_m = dev_m.capabilities[j as int];
                let ghost before_cap = fold_caps(
                    before_device,
                    dev_m.path,
                    dev_m.capabilities.take(j as int),
                    cfg,
                );
                let builtin = format_supports_builtin_encoder(&cap.format);
                let mut k: usize = 0;
                proof {
                    assert(cap_m.resolution.take(0) =~= Seq::<FrameSize>::empty());
                }
                while k < cap.resolution.len()
                    invariant
                        k <= cap.resolution@.len(),
                        cfg == *config,
                        i < devices@.len(),
                        devs == device_models(devices@),
                        device == &devices@[i as int],
                        dev_m == devs[i as int],
                        j < device.capabilities@.len(),
                        cap == &device.capabilities@[j as int],
                        cap_m == dev_m.capabilities[j as int],
                        builtin == is_h264(cap_m.format),
                        before_cap == fold_caps(
                            before_device,
                            dev_m.path,
                            dev_m.capabilities.take(j as int),
                            cfg,
                        ),
                        (ConfigModel {
                            source: best_source@,
                            use_cam_builtin_encoder: best_builtin,
                            width: best_width,
                            height: best_height,
                        }) == fold_sizes(
                            before_cap,
                            dev_m.path,
                            cap_m.format,
                            cap_m.resolution.take(k as int),
                            cfg,
                        ),
                    decreases cap.resolution@.len() - k,
                {
                    let fs = cap.resolution[k];
                    let ghost prior = fold_sizes(
                        before_cap,
                        dev_m.path,
                        cap_m.format,
                        cap_m.resolution.take(k as int),
                        cfg,
                    );
                    let w: u32;
                    let h: u32;
                    match fs {
                        FrameSize::Discrete { width, height } => {
                            w = width;
                            h = height;
                        },
                        FrameSize::Stepwise { max_width, max_height } => {
                            w = match config.width {
                                Some(wv) => if wv >= max_width {
                                    wv
                                } else {
                                    max_width
                                },
                                None => max_width,
                            };
                            h = match config.height {
                                Some(hv) => if hv >= max_height {
                                    hv
                                } else {
                                    max_height
                                },
                                None => max_height,
                            };
                        },
                    }
                    proof {
                        assert((w, h) == dims_of(fs, cfg));
                    }
                    let source_ok = match &config.source {
                        Some(s) => device.path.eq(s),
                        None => true,
                    };
                    let encoder_ok = match config.use_cam_builtin_encoder {
                        Some(b) => builtin == b,
                        None => true,
                    };
                    let width_ok = match config.width {
                        Some(wv) => w == wv,
                        None => true,
                    };
                    let height_ok = match config.height {
                        Some(hv) => h == hv,
                        None => true,
                    };
                    let eligible = source_ok && encoder_ok && width_ok && height_ok;
                    proof {
                        assert(eligible == size_eligible(dev_m.path, cap_m.format, fs, cfg));
                        assert((w as int) * (h as int) <= 0xFFFF_FFFFu64 * 0xFFFF_FFFFu64)
                            by (nonlinear_arith)
                            requires
                                w <= 0xFFFF_FFFFu64,
                                h <= 0xFFFF_FFFFu64,
                        ;
                        assert((best_width as int) * (best_height as int) <= 0xFFFF_FFFFu64
                            * 0xFFFF_FFFFu64) by (nonlinear_arith)
                            requires
                                best_width <= 0xFFFF_FFFFu64,
                                best_height <= 0xFFFF_FFFFu64,
                        ;
                    }
                    if eligible {
                        let cand: u64 = (w as u64) * (h as u64);
                        let cur: u64 = (best_width as u64) * (best_height as u64);
                        if cand > cur {
                            best_source = device.path.clone();
                            best_builtin = builtin;
                            best_width = w;
                            best_height = h;
                        }
                    }
                    proof {
                        assert(cap_m.resolution.take(k + 1).drop_last() =~= cap_m.resolution.take(
                            k as int,
                        ));
                        assert(cap_m.resolution.take(k + 1).last() == fs);
                        assert((ConfigModel {
                            source: best_source@,
                            use_cam_builtin_encoder: best_builtin,
                            width: best_width,
                            height: best_height,
                        }) == consider(prior, dev_m.path, cap_m.format, fs, cfg));
                    }
                    k = k + 1;
                }
                proof {
                    assert(cap_m.resolution.take(cap.resolution@.len() as int)
                        =~= cap_m.resolution);
                    assert(dev_m.capabilities.take(j + 1).drop_last() =~= dev_m.capabilities.take(
                        j as int,
                    ));
                    assert(dev_m.capabilities.take(j + 1).last() == cap_m);
                }
                j = j + 1;
            }
            proof {
                assert(dev_m.capabilities.take(device.capabilities@.len() as int)
                    =~= dev_m.capabilities);
                assert(devs.take(i + 1).drop_last() =~= devs.take(i as int));
                assert(devs.take(i + 1).last() == dev_m);
            }
            i = i + 1;
        }
        proof {
            assert(devs.take(devices@.len() as int) =~= devs);
        }
        Config {
            source: best_source,
            use_cam_builtin_encoder: best_builtin,
            width: best_width,
            height: best_height,
        }
    }
}

/// After folding a format's sizes, the best is at least as good as before
/// and at least as good as every eligible size of that format.
pub proof fn lemma_fold_sizes_max(
    best: ConfigModel,
    path: Seq<char>,
    format: Seq<char>,
    sizes: Seq<FrameSize>,
    cfg: PipelineConfig,
)
    ensures
        best_pixels(fold_sizes(best, path, format, sizes, cfg)) >= best_pixels(best),
        forall|k: int|
            0 <= k < sizes.len() && size_eligible(path, format, sizes[k], cfg) ==> pixels(
                dims_of(sizes[k], cfg).0,
                dims_of(sizes[k], cfg).1,
            ) <= best_pixels(fold_sizes(best, path, format, sizes, cfg)),
    decreases sizes.len(),
{
    if sizes.len() > 0 {
        lemma_fold_sizes_max(best, path, format, sizes.drop_last(), cfg);
        assert(forall|k: int| 0 <= k < sizes.len() - 1 ==> sizes.drop_last()[k] == sizes[k]);
    }
}

/// After folding a device's capabilities, the best is at least as good as
/// before and at least as good as every eligible candidate of that device.
pub proof fn lemma_fold_caps_max(
    best: ConfigModel,
    path: Seq<char>,
    caps: Seq<CapModel>,
    cfg: PipelineConfig,
)
    ensures
        best_pixels(fold_caps(best, path, caps, cfg)) >= best_pixels(best),
        forall|j: int, k: int|
            #![auto]
            0 <= j < caps.len() && 0 <= k < caps[j].resolution.len() && size_eligible(
                path,
                caps[j].format,
                caps[j].resolution[k],
                cfg,
            ) ==> pixels(
                dims_of(caps[j].resolution[k], cfg).0,
                dims_of(caps[j].resolution[k], cfg).1,
            ) <= best_pixels(fold_caps(best, path, caps, cfg)),
    decreases caps.len(),
{
    if caps.len() > 0 {
        lemma_fold_caps_max(best, path, caps.drop_last(), cfg);
        let prev = fold_caps(best, path, caps.drop_last(), cfg);
        lemma_fold_sizes_max(prev, path, caps.last().format, caps.last().resolution, cfg);
        assert(forall|j: int| 0 <= j < caps.len() - 1 ==> caps.drop_last()[j] == caps[j]);
        assert(caps[caps.len() - 1] == caps.last());
    }
}

/// The resolver's pick has at least as many pixels as every eligible
/// candidate of the whole enumeration snapshot: it maximizes width times
/// height subject to the explicitly set overrides.
pub proof fn lemma_resolver_maximal(devices: Seq<DeviceModel>, cfg: PipelineConfig)
    ensures
        forall|i: int, j: int, k: int|
            #![auto]
            0 <= i < devices.len() && 0 <= j < devices[i].capabilities.len() && 0 <= k
                < devices[i].capabilities[j].resolution.len() && size_eligible(
                devices[i].path,
                devices[i].capabilities[j].format,
                devices[i].capabilities[j].resolution[k],
                cfg,
            ) ==> pixels(
                dims_of(devices[i].capabilities[j].resolution[k], cfg).0,
                dims_of(devices[i].capabilities[j].resolution[k], cfg).1,
            ) <= best_pixels(resolve(devices, cfg)),
    decreases devices.len(),
{
    if devices.len() > 0 {
        lemma_resolver_maximal(devices.drop_last(), cfg);
        let prev = fold_devices(initial_best(), devices.drop_last(), cfg);
        lemma_fold_caps_max(prev, devices.last().path, devices.last().capabilities, cfg);
        lemma_fold_devices_monotone(initial_best(), devices, cfg);
        assert(forall|i: int| 0 <= i < devices.len() - 1 ==> devices.drop_last()[i] == devices[i]);
        assert(devices[devices.len() - 1] == devices.last());
    }
}

/// Folding more devices never lowers the pixel count of the best.
pub proof fn lemma_fold_devices_monotone(
    best: ConfigModel,
    devices: Seq<DeviceModel>,
    cfg: PipelineConfig,
)
    ensures
        best_pixels(fold_devices(best, devices, cfg)) >= best_pixels(best),
    decreases devices.len(),
{
    if devices.len() > 0 {
        lemma_fold_devices_monotone(best, devices.drop_last(), cfg);
        let prev = fold_devices(best, devices.drop_last(), cfg);
        lemma_fold_caps_max(prev, devices.last().path, devices.last().capabilities, cfg);
    }
}

/// What fold_sizes yields is the best it was given or one of the sizes it
/// saw, as an eligible candidate of that format.
pub proof fn lemma_fold_sizes_achieved(
    best: ConfigModel,
    path: Seq<char>,
    format: Seq<char>,
    sizes: Seq<FrameSize>,
    cfg: PipelineConfig,
)
    ensures
        fold_sizes(best, path, format, sizes, cfg) == best || exists|k: int|
            #![auto]
            0 <= k < sizes.len() && size_eligible(path, format, sizes[k], cfg) && fold_sizes(
                best,
                path,
                format,
                sizes,
                cfg,
            ) == (ConfigModel {
                source: path,
                use_cam_builtin_encoder: is_h264(format),
                width: dims_of(sizes[k], cfg).0,
                height: dims_of(sizes[k], cfg).1,
            }),
    decreases sizes.len(),
{
    if sizes.len() > 0 {
        lemma_fold_sizes_achieved(best, path, format, sizes.drop_last(), cfg);
        let prev = fold_sizes(best, path, format, sizes.drop_last(), cfg);
        let res = consider(prev, path, format, sizes.last(), cfg);
        if res != prev {
            assert(size_eligible(path, format, sizes[sizes.len() - 1], cfg));
        } else {
            if prev != best {
                let k = choose|k: int|
                    #![auto]
                    0 <= k < sizes.drop_last().len() && size_eligible(
                        path,
                        format,
                        sizes.drop_last()[k],
                        cfg,
                    ) && prev == (ConfigModel {
                        source: path,
                        use_cam_builtin_encoder: is_h264(format),
                        width: dims_of(sizes.drop_last()[k], cfg).0,
                        height: dims_of(sizes.drop_last()[k], cfg).1,
                    });
                assert(sizes.drop_last()[k] == sizes[k]);
            }
        }
    }
}

/// What fold_caps yields is the best it was given or an eligible candidate
/// of one of the device's formats.
pub proof fn lemma_fold_caps_achieved(
    best: ConfigModel,
    path: Seq<char>,
    caps: Seq<CapModel>,
    cfg: PipelineConfig,
)
    ensures
        fold_caps(best, path, caps, cfg) == best || exists|j: int, k: int|
            #![auto]
            0 <= j < caps.len() && 0 <= k < caps[j].resolution.len() && size_eligible(
                path,
                caps[j].format,
                caps[j].resolution[k],
                cfg,
            ) && fold_caps(best, path, caps, cfg) == (ConfigModel {
                source: path,
                use_cam_builtin_encoder: is_h264(caps[j].format),
                width: dims_of(caps[j].resolution[k], cfg).0,
                height: dims_of(caps[j].resolution[k], cfg).1,
            }),
    decreases caps.len(),
{
    if caps.len() > 0 {
        lemma_fold_caps_achieved(best, path, caps.drop_last(), cfg);
        let prev = fold_caps(best, path, caps.drop_last(), cfg);
        let res = fold_sizes(prev, path, caps.last().format, caps.last().resolution, cfg);
        lemma_fold_sizes_achieved(prev, path, caps.last().format, caps.last().resolution, cfg);
        assert(forall|j: int| 0 <= j < caps.len() - 1 ==> caps.drop_last()[j] == caps[j]);
        assert(caps[caps.len() - 1] == caps.last());
        if res != prev {
            let k = choose|k: int|
                #![auto]
                0 <= k < caps.last().resolution.len() && size_eligible(
                    path,
                    caps.last().format,
                    caps.last().resolution[k],
                    cfg,
                ) && res == (ConfigModel {
                    source: path,
                    use_cam_builtin_encoder: is_h264(caps.last().format),
                    width: dims_of(caps.last().resolution[k], cfg).0,
                    height: dims_of(caps.last().resolution[k], cfg).1,
                });
            assert(0 <= caps.len() - 1 < caps.len() && 0 <= k
                < caps[caps.len() - 1].resolution.len());
        } else if prev != best {
            let (j, k) = choose|j: int, k: int|
                #![auto]
                0 <= j < caps.drop_last().len() && 0 <= k < caps.drop_last()[j].resolution.len()
                    && size_eligible(
                    path,
                    caps.drop_last()[j].format,
                    caps.drop_last()[j].resolution[k],
                    cfg,
                ) && prev == (ConfigModel {
                    source: path,
                    use_cam_builtin_encoder: is_h264(caps.drop_last()[j].format),
                    width: dims_of(caps.drop_last()[j].resolution[k], cfg).0,
                    height: dims_of(caps.drop_last()[j].resolution[k], cfg).1,
                });
            assert(caps.drop_last()[j] == caps[j]);
        }
    }
}

/// When the resolver picks anything at all, the pick is an eligible
/// candidate of the snapshot: its source is a real device's path, its
/// encoder flag is that device format's, and its dimensions are one of that
/// format's frame sizes under the overrides.
pub proof fn lemma_resolver_selects_candidate(devices: Seq<DeviceModel>, cfg: PipelineConfig)
    ensures
        resolve(devices, cfg) == initial_best() || exists|i: int, j: int, k: int|
            #![auto]
            0 <= i < devices.len() && 0 <= j < devices[i].capabilities.len() && 0 <= k
                < devices[i].capabilities[j].resolution.len() && size_eligible(
                devices[i].path,
                devices[i].capabilities[j].format,
                devices[i].capabilities[j].resolution[k],
                cfg,
            ) && resolve(devices, cfg) == (ConfigModel {
                source: devices[i].path,
                use_cam_builtin_encoder: is_h264(devices[i].capabilities[j].format),
                width: dims_of(devices[i].capabilities[j].resolution[k], cfg).0,
                height: dims_of(devices[i].capabilities[j].resolution[k], cfg).1,
            }),
    decreases devices.len(),
{
    if devices.len() > 0 {
        lemma_resolver_selects_candidate(devices.drop_last(), cfg);
        let prev = fold_devices(initial_best(), devices.drop_last(), cfg);
        let res = fold_caps(prev, devices.last().path, devices.last().capabilities, cfg);
        lemma_fold_caps_achieved(prev, devices.last().path, devices.last().capabilities, cfg);
        assert(forall|i: int| 0 <= i < devices.len() - 1 ==> devices.drop_last()[i] == devices[i]);
        assert(devices[devices.len() - 1] == devices.last());
        if res != prev {
            let (j, k) = choose|j: int, k: int|
                #![auto]
                0 <= j < devices.last().capabilities.len() && 0 <= k < devices.last(
                ).capabilities[j].resolution.len() && size_eligible(
                    devices.last().path,
                    devices.last().capabilities[j].format,
                    devices.last().capabilities[j].resolution[k],
                    cfg,
                ) && res == (ConfigModel {
                    source: devices.last().path,
                    use_cam_builtin_encoder: is_h264(devices.last().capabilities[j].format),
                    width: dims_of(devices.last().capabilities[j].resolution[k], cfg).0,
                    height: dims_of(devices.last().capabilities[j].resolution[k], cfg).1,
                });
            assert(0 <= devices.len() - 1 < devices.len());
        } else if prev != initial_best() {
            let (i, j, k) = choose|i: int, j: int, k: int|
                #![auto]
                0 <= i < devices.drop_last().len() && 0 <= j < devices.drop_last(
                )[i].capabilities.len() && 0 <= k < devices.drop_last(
                )[i].capabilities[j].resolution.len() && size_eligible(
                    devices.drop_last()[i].path,
                    devices.drop_last()[i].capabilities[j].format,
                    devices.drop_last()[i].capabilities[j].resolution[k],
                    cfg,
                ) && prev == (ConfigModel {
                    source: devices.drop_last()[i].path,
                    use_cam_builtin_encoder: is_h264(devices.drop_last()[i].capabilities[j].format),
                    width: dims_of(devices.drop_last()[i].capabilities[j].resolution[k], cfg).0,
                    height: dims_of(devices.drop_last()[i].capabilities[j].resolution[k], cfg).1,
                });
            assert(devices.drop_last()[i] == devices[i]);
        }
    }
}

} // verus!
