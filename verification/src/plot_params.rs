//! The parameters of a plot: labels, axis limits, sizes, file name and backend, one value per
//! kind of argument.
//!
//! Two checks of plot arguments are not made here: whether a directory exists (a file-system
//! query) and whether axis limits are usable (floating-point arithmetic on the limits). Their
//! results are handed in by the caller.
use vstd::prelude::*;
use crate::error::{OpmResult, OpossumError};
use crate::name_map::NameMap;
use crate::plot::{CGradient, LabelPos, PltBackEnd};

verus! {

/// The minimum and the maximum of an axis (bit patterns of `f64` values).
#[derive(Debug, Clone, Copy, PartialEq, Eq, Structural)]
pub struct AxLims {
    /// The minimum.
    pub min: u64,
    /// The maximum.
    pub max: u64,
}

/// A plot argument with its value.
#[derive(Debug)]
pub enum PlotArgs {
    /// The label of the x axis.
    XLabel(String),
    /// The label of the y axis.
    YLabel(String),
    /// The position of the x label.
    XLabelPos(LabelPos),
    /// The position of the y label.
    YLabelPos(LabelPos),
    /// The color gradient.
    CMap(CGradient),
    /// The label of the color bar.
    CBarLabel(String),
    /// The position of the color bar label.
    CBarLabelPos(LabelPos),
    /// The limits of the x axis (`None`: from the data).
    XLim(Option<AxLims>),
    /// The limits of the y axis (`None`: from the data).
    YLim(Option<AxLims>),
    /// The limits of the z axis (`None`: from the data).
    ZLim(Option<AxLims>),
    /// Whether the axes are scaled equally.
    AxisEqual(bool),
    /// Whether the plot size is chosen automatically.
    PlotAutoSize(bool),
    /// Whether the axis bounds are expanded.
    ExpandBounds(bool),
    /// The image size in pixels.
    PlotSize((u32, u32)),
    /// The directory the image is written to.
    FDir(String),
    /// The file name of the image.
    FName(String),
    /// The plotting backend.
    Backend(PltBackEnd),
    /// The view direction of a 3d plot (bit patterns).
    ViewDirection3D((u64, u64, u64)),
    /// Whether a legend is shown.
    Legend(bool),
}

/// The key under which an argument is stored: one per kind of argument.
pub open spec fn arg_key(a: PlotArgs) -> Seq<char> {
    match a {
        PlotArgs::XLabel(_) => "xlabel"@,
        PlotArgs::YLabel(_) => "ylabel"@,
        PlotArgs::XLabelPos(_) => "xlabelpos"@,
        PlotArgs::YLabelPos(_) => "ylabelpos"@,
        PlotArgs::CMap(_) => "cmap"@,
        PlotArgs::XLim(_) => "xlim"@,
        PlotArgs::YLim(_) => "ylim"@,
        PlotArgs::ZLim(_) => "zlim"@,
        PlotArgs::AxisEqual(_) => "axisequal"@,
        PlotArgs::PlotAutoSize(_) => "plotautosize"@,
        PlotArgs::ExpandBounds(_) => "expandbounds"@,
        PlotArgs::PlotSize(_) => "plotsize"@,
        PlotArgs::CBarLabelPos(_) => "cbarlabelpos"@,
        PlotArgs::CBarLabel(_) => "cbarlabel"@,
        PlotArgs::FDir(_) => "fdir"@,
        PlotArgs::FName(_) => "fname"@,
        PlotArgs::Backend(_) => "backend"@,
        PlotArgs::ViewDirection3D(_) => "view3d"@,
        PlotArgs::Legend(_) => "legend"@,
    }
}

/// The ASCII lowercase of a character.
pub open spec fn ascii_lower(c: char) -> char {
    if 'A' <= c && c <= 'Z' { ((c as u32) + 32) as char } else { c }
}

/// Two texts are equal when ASCII letters are compared without regard to case.
pub open spec fn eq_ignore_ascii_case(a: Seq<char>, b: Seq<char>) -> bool {
    a.len() == b.len() && forall|i: int| 0 <= i < a.len() ==> ascii_lower(#[trigger] a[i]) == ascii_lower(b[i])
}

/// The index of the last dot of `s`, or `-1` if it has none.
pub open spec fn last_dot(s: Seq<char>) -> int
    decreases s.len(),
{
    if s.len() == 0 {
        -1
    } else if s.last() == '.' {
        s.len() - 1
    } else {
        last_dot(s.drop_last())
    }
}

/// A file name without directory: no path separator (`/`, `\`), no drive separator (`:`),
/// and not the parent-directory name `..`.
pub open spec fn plain_file_name(s: Seq<char>) -> bool {
    &&& forall|k: int| 0 <= k < s.len() ==> #[trigger] s[k] != '/' && s[k] != '\\' && s[k] != ':'
    &&& s != ".."@
}

/// The extension of a plain file name: the text after its last dot; none if it has no dot or
/// its only dot is its first character.
pub open spec fn name_extension(s: Seq<char>) -> Option<Seq<char>> {
    let k = last_dot(s);
    if k <= 0 {
        None
    } else {
        Some(s.subrange(k + 1, s.len() as int))
    }
}

/// The index of the last `/` of `s`, or `-1` if it has none.
pub open spec fn last_slash(s: Seq<char>) -> int
    decreases s.len(),
{
    if s.len() == 0 {
        -1
    } else if s.last() == '/' {
        s.len() - 1
    } else {
        last_slash(s.drop_last())
    }
}

/// The last component of a path written with `/` separators: the text after its last `/`.
pub open spec fn file_component(s: Seq<char>) -> Seq<char> {
    s.subrange(last_slash(s) + 1, s.len() as int)
}

/// A path whose file name is the same on every platform: a plain file name, or a path with
/// `/` separators, without `\` or `:`, not starting with `//` (a network share on some
/// platforms), whose last component is neither empty, `.` nor `..`.
pub open spec fn simple_path(s: Seq<char>) -> bool {
    ||| plain_file_name(s)
    ||| {
        &&& forall|k: int| 0 <= k < s.len() ==> #[trigger] s[k] != '\\' && s[k] != ':'
        &&& !(s.len() >= 2 && s[0] == '/' && s[1] == '/')
        &&& file_component(s).len() > 0
        &&& file_component(s) != "."@
        &&& file_component(s) != ".."@
    }
}

/// The extension of the file name of a simple path (see [`name_extension`]).
pub open spec fn path_extension(s: Seq<char>) -> Option<Seq<char>> {
    name_extension(file_component(s))
}

/// Whether an extension is one of the given ones (without regard to case).
pub open spec fn extension_among(ext: Option<Seq<char>>, exts: Seq<Seq<char>>) -> bool {
    match ext {
        Some(e) => exists|i: int| 0 <= i < exts.len() && eq_ignore_ascii_case(e, #[trigger] exts[i]),
        None => false,
    }
}

/// Whether an argument may be set. `fdir_exists` tells whether the directory of an `FDir`
/// argument exists and `lims_valid` whether the limits of an axis-limit argument are usable;
/// the file name of an `FName` argument must have an image extension.
pub open spec fn arg_valid(a: PlotArgs, fdir_exists: bool, lims_valid: bool) -> bool {
    match a {
        PlotArgs::XLabelPos(p) => p == LabelPos::Bottom || p == LabelPos::Top,
        PlotArgs::YLabelPos(p) => p == LabelPos::Left || p == LabelPos::Right,
        PlotArgs::CBarLabelPos(p) => p == LabelPos::Left || p == LabelPos::Right,
        PlotArgs::XLim(l) => l is None || lims_valid,
        PlotArgs::YLim(l) => l is None || lims_valid,
        PlotArgs::ZLim(l) => l is None || lims_valid,
        PlotArgs::PlotSize(s) => s.0 != 0 && s.1 != 0,
        PlotArgs::FDir(_) => fdir_exists,
        PlotArgs::FName(n) => extension_among(path_extension(n@), image_extensions()),
        _ => true,
    }
}

/// The file extensions of images.
pub open spec fn image_extensions() -> Seq<Seq<char>> {
    seq!["jpg"@, "png"@, "bmp"@, "svg"@]
}

/// The extension of a file name: the text after the last dot of its last path component
/// (`std::path::Path::extension`).
///
/// For a simple path (see [`simple_path`]) the result is the extension of its last component,
/// as the documentation of `Path::extension` describes it; of other paths, whose last component
/// depends on the platform's separators and prefixes, it is stated only that a path without a
/// dot has no extension.
#[verifier::external_body]
fn file_extension(fname: &str) -> (r: Option<String>)
    ensures
        simple_path(fname@) ==> match r {
            Some(e) => path_extension(fname@) == Some(e@),
            None => path_extension(fname@) is None,
        },
        (forall|k: int| 0 <= k < fname@.len() ==> fname@[k] != '.') ==> r is None,
{
    std::path::Path::new(fname).extension().map(|e| e.to_string_lossy().into_owned())
}

/// Compares two texts without regard to the case of ASCII letters.
pub fn str_eq_ignore_ascii_case(a: &str, b: &str) -> (r: bool)
    ensures
        r == eq_ignore_ascii_case(a@, b@),
{
    let n = a.unicode_len();
    if n != b.unicode_len() {
        return false;
    }
    let mut i: usize = 0;
    while i < n
        invariant
            n == a@.len(),
            n == b@.len(),
            i <= n,
            forall|j: int| 0 <= j < i ==> ascii_lower(#[trigger] a@[j]) == ascii_lower(b@[j]),
        decreases n - i,
    {
        let ca = a.get_char(i);
        let cb = b.get_char(i);
        let la = if 'A' <= ca && ca <= 'Z' { ((ca as u32) + 32) as u8 as char } else { ca };
        let lb = if 'A' <= cb && cb <= 'Z' { ((cb as u32) + 32) as u8 as char } else { cb };
        assert(la == ascii_lower(ca) && lb == ascii_lower(cb));
        if la != lb {
            return false;
        }
        i = i + 1;
    }
    true
}

/// Whether an extension is one of the given ones (without regard to case).
pub fn extension_is_among(ext: Option<&str>, valid_exts: &Vec<&str>) -> (r: bool)
    ensures
        r == extension_among(
            match ext { Some(e) => Some(e@), None => None },
            valid_exts@.map_values(|e: &str| e@),
        ),
{
    let e = match ext {
        Some(e) => e,
        None => return false,
    };
    let ghost exts = valid_exts@.map_values(|e: &str| e@);
    let mut i: usize = 0;
    while i < valid_exts.len()
        invariant
            ext == Some(e),
            i <= valid_exts@.len(),
            exts == valid_exts@.map_values(|e: &str| e@),
            forall|j: int| 0 <= j < i ==> !eq_ignore_ascii_case(e@, #[trigger] exts[j]),
        decreases valid_exts@.len() - i,
    {
        if str_eq_ignore_ascii_case(e, valid_exts[i]) {
            assert(eq_ignore_ascii_case(e@, exts[i as int]));
            return true;
        }
        i = i + 1;
    }
    false
}

/// Whether a file name has one of the given extensions (without regard to case).
pub fn check_file_ext_validity(fname: &str, valid_exts: &Vec<&str>) -> (r: bool)
    ensures
        simple_path(fname@) ==> r == extension_among(path_extension(fname@), valid_exts@.map_values(|e: &str| e@)),
        (forall|k: int| 0 <= k < fname@.len() ==> fname@[k] != '.') ==> !r,
{
    match file_extension(fname) {
        Some(e) => extension_is_among(Some(e.as_str()), valid_exts),
        None => false,
    }
}

impl PlotArgs {
    /// The key under which the argument is stored.
    pub fn key(&self) -> (s: String)
        ensures
            s@ == arg_key(*self),
    {
        match self {
            PlotArgs::XLabel(_) => "xlabel".to_owned(),
            PlotArgs::YLabel(_) => "ylabel".to_owned(),
            PlotArgs::XLabelPos(_) => "xlabelpos".to_owned(),
            PlotArgs::YLabelPos(_) => "ylabelpos".to_owned(),
            PlotArgs::CMap(_) => "cmap".to_owned(),
            PlotArgs::XLim(_) => "xlim".to_owned(),
            PlotArgs::YLim(_) => "ylim".to_owned(),
            PlotArgs::ZLim(_) => "zlim".to_owned(),
            PlotArgs::AxisEqual(_) => "axisequal".to_owned(),
            PlotArgs::PlotAutoSize(_) => "plotautosize".to_owned(),
            PlotArgs::ExpandBounds(_) => "expandbounds".to_owned(),
            PlotArgs::PlotSize(_) => "plotsize".to_owned(),
            PlotArgs::CBarLabelPos(_) => "cbarlabelpos".to_owned(),
            PlotArgs::CBarLabel(_) => "cbarlabel".to_owned(),
            PlotArgs::FDir(_) => "fdir".to_owned(),
            PlotArgs::FName(_) => "fname".to_owned(),
            PlotArgs::Backend(_) => "backend".to_owned(),
            PlotArgs::ViewDirection3D(_) => "view3d".to_owned(),
            PlotArgs::Legend(_) => "legend".to_owned(),
        }
    }

    /// Whether the argument may be set (see [`arg_valid`]).
    pub fn is_valid(&self, fdir_exists: bool, lims_valid: bool) -> (r: bool)
        ensures
            (self matches PlotArgs::FName(n) ==> simple_path(n@)) ==> r == arg_valid(*self, fdir_exists, lims_valid),
            (self matches PlotArgs::FName(n) && (forall|k: int| 0 <= k < n@.len() ==> n@[k] != '.')) ==> !r,
    {
        match self {
            PlotArgs::XLabelPos(p) => match p {
                LabelPos::Bottom | LabelPos::Top => true,
                _ => false,
            },
            PlotArgs::YLabelPos(p) | PlotArgs::CBarLabelPos(p) => match p {
                LabelPos::Left | LabelPos::Right => true,
                _ => false,
            },
            PlotArgs::XLim(l) | PlotArgs::YLim(l) | PlotArgs::ZLim(l) => l.is_none() || lims_valid,
            PlotArgs::PlotSize(s) => !(s.0 == 0 || s.1 == 0),
            PlotArgs::FDir(_) => fdir_exists,
            PlotArgs::FName(fname) => {
                let exts = vec!["jpg", "png", "bmp", "svg"];
                proof {
                    reveal_strlit("jpg");
                    reveal_strlit("png");
                    reveal_strlit("bmp");
                    reveal_strlit("svg");
                    assert(exts@.map_values(|e: &str| e@) =~= image_extensions());
                }
                check_file_ext_validity(fname.as_str(), &exts)
            },
            _ => true,
        }
    }
}

/// The kind of an argument (one number per variant).
pub open spec fn arg_kind(a: PlotArgs) -> int {
    match a {
        PlotArgs::XLabel(_) => 0,
        PlotArgs::YLabel(_) => 1,
        PlotArgs::XLabelPos(_) => 2,
        PlotArgs::YLabelPos(_) => 3,
        PlotArgs::CMap(_) => 4,
        PlotArgs::CBarLabel(_) => 5,
        PlotArgs::CBarLabelPos(_) => 6,
        PlotArgs::XLim(_) => 7,
        PlotArgs::YLim(_) => 8,
        PlotArgs::ZLim(_) => 9,
        PlotArgs::AxisEqual(_) => 10,
        PlotArgs::PlotAutoSize(_) => 11,
        PlotArgs::ExpandBounds(_) => 12,
        PlotArgs::PlotSize(_) => 13,
        PlotArgs::FDir(_) => 14,
        PlotArgs::FName(_) => 15,
        PlotArgs::Backend(_) => 16,
        PlotArgs::ViewDirection3D(_) => 17,
        PlotArgs::Legend(_) => 18,
    }
}

impl PlotArgs {
    /// The kind of the argument (see [`arg_kind`]).
    pub fn kind(&self) -> (k: u8)
        ensures
            k == arg_kind(*self),
    {
        match self {
            PlotArgs::XLabel(_) => 0,
            PlotArgs::YLabel(_) => 1,
            PlotArgs::XLabelPos(_) => 2,
            PlotArgs::YLabelPos(_) => 3,
            PlotArgs::CMap(_) => 4,
            PlotArgs::CBarLabel(_) => 5,
            PlotArgs::CBarLabelPos(_) => 6,
            PlotArgs::XLim(_) => 7,
            PlotArgs::YLim(_) => 8,
            PlotArgs::ZLim(_) => 9,
            PlotArgs::AxisEqual(_) => 10,
            PlotArgs::PlotAutoSize(_) => 11,
            PlotArgs::ExpandBounds(_) => 12,
            PlotArgs::PlotSize(_) => 13,
            PlotArgs::FDir(_) => 14,
            PlotArgs::FName(_) => 15,
            PlotArgs::Backend(_) => 16,
            PlotArgs::ViewDirection3D(_) => 17,
            PlotArgs::Legend(_) => 18,
        }
    }
}

/// Whether `m` holds the default arguments (see [`PlotParameters::default_with`]) for the
/// directory `fdir` and the file name `fname`.
pub open spec fn is_default_view(m: Map<Seq<char>, PlotArgs>, fdir: Seq<char>, fname: Seq<char>) -> bool {
    &&& m.dom() == set!["backend"@, "xlabel"@, "xlabelpos"@, "ylabel"@, "ylabelpos"@, "cbarlabel"@,
        "cbarlabelpos"@, "xlim"@, "ylim"@, "zlim"@, "axisequal"@, "plotautosize"@, "expandbounds"@,
        "cmap"@, "fname"@, "plotsize"@, "fdir"@, "view3d"@, "legend"@]
    &&& m.dom().len() == 19
    &&& m["backend"@] == PlotArgs::Backend(PltBackEnd::Bitmap)
    &&& m["xlabelpos"@] == PlotArgs::XLabelPos(LabelPos::Bottom)
    &&& m["ylabelpos"@] == PlotArgs::YLabelPos(LabelPos::Left)
    &&& m["cbarlabelpos"@] == PlotArgs::CBarLabelPos(LabelPos::Right)
    &&& m["xlim"@] == PlotArgs::XLim(None)
    &&& m["ylim"@] == PlotArgs::YLim(None)
    &&& m["zlim"@] == PlotArgs::ZLim(None)
    &&& m["axisequal"@] == PlotArgs::AxisEqual(true)
    &&& m["plotautosize"@] == PlotArgs::PlotAutoSize(false)
    &&& m["expandbounds"@] == PlotArgs::ExpandBounds(true)
    &&& m["plotsize"@] == PlotArgs::PlotSize((800, 800))
    &&& m["view3d"@] == PlotArgs::ViewDirection3D((MINUS_ONE, MINUS_ONE, MINUS_ONE))
    &&& m["legend"@] == PlotArgs::Legend(true)
    &&& m["xlabel"@] matches PlotArgs::XLabel(s) && s@ == "x"@
    &&& m["ylabel"@] matches PlotArgs::YLabel(s) && s@ == "y"@
    &&& m["cbarlabel"@] matches PlotArgs::CBarLabel(s) && s@ == "z value"@
    &&& m["fdir"@] matches PlotArgs::FDir(s) && s@ == fdir
    &&& m["fname"@] matches PlotArgs::FName(s) && s@ == fname
    &&& m["cmap"@] is CMap
}

/// The arguments of `m` after storing each argument of `args` in turn under its key.
pub open spec fn inserted_all(m: Map<Seq<char>, PlotArgs>, args: Seq<PlotArgs>) -> Map<Seq<char>, PlotArgs>
    decreases args.len(),
{
    if args.len() == 0 {
        m
    } else {
        inserted_all(m, args.drop_last()).insert(arg_key(args.last()), args.last())
    }
}

/// The last argument of `args` stored under the key `k`, if any.
pub open spec fn last_with_key(args: Seq<PlotArgs>, k: Seq<char>) -> Option<PlotArgs>
    decreases args.len(),
{
    if args.len() == 0 {
        None
    } else if arg_key(args.last()) == k {
        Some(args.last())
    } else {
        last_with_key(args.drop_last(), k)
    }
}

/// Storing a list of arguments in turn leaves under each key the last argument of that key;
/// a key that no argument has keeps what was stored under it.
pub proof fn lemma_inserted_all_lookup(m: Map<Seq<char>, PlotArgs>, args: Seq<PlotArgs>, k: Seq<char>)
    ensures
        inserted_all(m, args).contains_key(k) <==> (last_with_key(args, k) is Some || m.contains_key(k)),
        last_with_key(args, k) matches Some(a) ==> inserted_all(m, args)[k] == a,
        last_with_key(args, k) is None && m.contains_key(k) ==> inserted_all(m, args)[k] == m[k],
    decreases args.len(),
{
    if args.len() > 0 {
        lemma_inserted_all_lookup(m, args.drop_last(), k);
    }
}

/// The bit pattern of `-1.0`.
pub const MINUS_ONE: u64 = 0xbff0_0000_0000_0000u64;

/// The parameters of a plot: the arguments by key.
#[derive(Debug)]
pub struct PlotParameters {
    params: NameMap<PlotArgs>,
}

impl PlotParameters {
    /// The arguments by key.
    pub closed spec fn view(self) -> Map<Seq<char>, PlotArgs> {
        self.params.view()
    }

    /// Well-formedness: the table is well-formed and every argument is stored under its key.
    pub closed spec fn wf(self) -> bool {
        &&& self.params.wf()
        &&& forall|k: Seq<char>| #[trigger] self.params.view().contains_key(k) ==> arg_key(self.params.view()[k]) == k
    }

    /// Parameters without any argument.
    pub fn empty() -> (p: Self)
        ensures
            p.wf(),
            p.view() == Map::<Seq<char>, PlotArgs>::empty(),
    {
        PlotParameters { params: NameMap::new() }
    }

    /// Stores an argument under its key, replacing the one stored there.
    pub fn insert(&mut self, plt_arg: PlotArgs)
        requires
            old(self).wf(),
        ensures
            final(self).wf(),
            final(self).view() == old(self).view().insert(arg_key(plt_arg), plt_arg),
    {
        let key = plt_arg.key();
        let ghost k = arg_key(plt_arg);
        let ghost a = plt_arg;
        let _ = self.params.insert(key, plt_arg);
        assert(self.params.view()[k] == a);
    }

    /// Whether an argument of the same kind is stored.
    pub fn check_if_set(&self, plt_arg: &PlotArgs) -> (b: bool)
        requires
            self.wf(),
        ensures
            b == exists|k: Seq<char>| #[trigger] self.view().contains_key(k) && arg_kind(self.view()[k]) == arg_kind(*plt_arg),
    {
        proof { self.params.lemma_all_entries(); }
        let kind = plt_arg.kind();
        let n = self.params.len();
        let mut i: usize = 0;
        while i < n
            invariant
                self.wf(),
                n == self.params.keys().len(),
                self.params.keys().len() == self.params.values().len(),
                forall|j: int| 0 <= j < self.params.keys().len() ==> self.params.view().contains_key(#[trigger] self.params.keys()[j])
                    && self.params.view()[self.params.keys()[j]] == self.params.values()[j],
                forall|k: Seq<char>| self.params.view().contains_key(k) <==> self.params.keys().contains(k),
                kind == arg_kind(*plt_arg),
                i <= n,
                forall|j: int| 0 <= j < i ==> arg_kind(#[trigger] self.params.values()[j]) != kind,
            decreases n - i,
        {
            if self.params.value_at(i).kind() == kind {
                assert(self.view().contains_key(self.params.keys()[i as int]));
                return true;
            }
            i = i + 1;
        }
        proof {
            assert forall|k: Seq<char>| #[trigger] self.view().contains_key(k) implies arg_kind(self.view()[k]) != kind by {
                let j = choose|j: int| 0 <= j < self.params.keys().len() && self.params.keys()[j] == k;
                assert(self.params.view()[self.params.keys()[j]] == self.params.values()[j]);
            }
        }
        false
    }

    /// Sets an argument, if it is valid (see [`PlotArgs::is_valid`]); `fdir_exists` tells
    /// whether the directory of an `FDir` argument exists and `lims_valid` whether the limits
    /// of an axis-limit argument are usable.
    ///
    /// # Errors
    ///
    /// This function returns an error, leaving the parameters unchanged, if the argument is
    /// not valid.
    pub fn set(&mut self, plt_arg: PlotArgs, fdir_exists: bool, lims_valid: bool) -> (r: OpmResult<()>)
        requires
            old(self).wf(),
        ensures
            final(self).wf(),
            (plt_arg matches PlotArgs::FName(n) ==> simple_path(n@))
                ==> (r is Ok <==> arg_valid(plt_arg, fdir_exists, lims_valid)),
            plt_arg matches PlotArgs::XLabelPos(p) ==> (r is Ok <==> (p == LabelPos::Bottom || p == LabelPos::Top)),
            plt_arg matches PlotArgs::YLabelPos(p) ==> (r is Ok <==> (p == LabelPos::Left || p == LabelPos::Right)),
            plt_arg matches PlotArgs::CBarLabelPos(p) ==> (r is Ok <==> (p == LabelPos::Left || p == LabelPos::Right)),
            plt_arg matches PlotArgs::PlotSize(sz) ==> (r is Ok <==> (sz.0 > 0 && sz.1 > 0)),
            r is Ok ==> final(self).view() == old(self).view().insert(arg_key(plt_arg), plt_arg),
            r is Err ==> final(self).view() == old(self).view(),
            r matches Err(e) ==> e is Other,
    {
        if plt_arg.is_valid(fdir_exists, lims_valid) {
            let ghost before = self.view();
            if self.check_if_set(&plt_arg) {
                let key = plt_arg.key();
                let _ = self.params.remove(key.as_str());
                assert forall|k: Seq<char>| #[trigger] self.params.view().contains_key(k)
                    implies arg_key(self.params.view()[k]) == k by {
                    assert(before.contains_key(k));
                }
            }
            let ghost a = plt_arg;
            self.insert(plt_arg);
            assert(self.view() =~= before.insert(arg_key(a), a));
            Ok(())
        } else {
            Err(OpossumError::Other("Parameter of plot argument is invalid and could not be set!".to_owned()))
        }
    }

    /// The default parameters, with the given directory and file name of the image: bitmap
    /// backend, labels `x` (bottom), `y` (left) and `z value` (right, color bar), no axis
    /// limits, equal axes, no automatic size, expanded bounds, the `Turbo` gradient, a size of
    /// 800 x 800 pixels, the view direction (-1, -1, -1) and a legend.
    pub fn default_with(fdir: &str, fname: &str) -> (p: Self)
        ensures
            p.wf(),
            is_default_view(p.view(), fdir@, fname@),
    {
        let mut p = Self::empty();
        p.insert(PlotArgs::Backend(PltBackEnd::Bitmap));
        p.insert(PlotArgs::XLabel("x".to_owned()));
        p.insert(PlotArgs::XLabelPos(LabelPos::Bottom));
        p.insert(PlotArgs::YLabel("y".to_owned()));
        p.insert(PlotArgs::YLabelPos(LabelPos::Left));
        p.insert(PlotArgs::CBarLabel("z value".to_owned()));
        p.insert(PlotArgs::CBarLabelPos(LabelPos::Right));
        p.insert(PlotArgs::XLim(None));
        p.insert(PlotArgs::YLim(None));
        p.insert(PlotArgs::ZLim(None));
        p.insert(PlotArgs::AxisEqual(true));
        p.insert(PlotArgs::PlotAutoSize(false));
        p.insert(PlotArgs::ExpandBounds(true));
        p.insert(PlotArgs::CMap(CGradient::default()));
        p.insert(PlotArgs::FName(fname.to_owned()));
        p.insert(PlotArgs::PlotSize((800, 800)));
        p.insert(PlotArgs::FDir(fdir.to_owned()));
        p.insert(PlotArgs::ViewDirection3D((MINUS_ONE, MINUS_ONE, MINUS_ONE)));
        p.insert(PlotArgs::Legend(true));
        proof {
            lemma_keys_distinct();
            let d = p.view().dom();
            assert(d =~= set!["backend"@, "xlabel"@, "xlabelpos"@, "ylabel"@, "ylabelpos"@, "cbarlabel"@,
                "cbarlabelpos"@, "xlim"@, "ylim"@, "zlim"@, "axisequal"@, "plotautosize"@, "expandbounds"@,
                "cmap"@, "fname"@, "plotsize"@, "fdir"@, "view3d"@, "legend"@]);
        }
        p
    }

    /// The default parameters (see [`PlotParameters::default_with`]) with the given arguments
    /// stored over them, in order.
    pub fn new(plt_args: Vec<PlotArgs>, fdir: &str, fname: &str) -> (p: Self)
        ensures
            p.wf(),
            exists|d: Map<Seq<char>, PlotArgs>| is_default_view(d, fdir@, fname@)
                && p.view() == inserted_all(d, plt_args@),
    {
        let mut p = Self::default_with(fdir, fname);
        let ghost d = p.view();
        let ghost all = plt_args@;
        let mut args = plt_args;
        let n = args.len();
        let mut i: usize = 0;
        while i < n
            invariant
                p.wf(),
                n == all.len(),
                i <= n,
                args@ == all.subrange(i as int, n as int),
                p.view() == inserted_all(d, all.subrange(0, i as int)),
            decreases n - i,
        {
            let a = args.remove(0);
            assert(all.subrange(0, i + 1).drop_last() =~= all.subrange(0, i as int));
            p.insert(a);
            i = i + 1;
            assert(args@ =~= all.subrange(i as int, n as int));
        }
        assert(all.subrange(0, n as int) =~= all);
        p
    }

    /// Whether the backend and the extension of the file name fit together: a bitmap needs a
    /// `.png`, `.bmp` or `.jpg` file, an SVG image an `.svg` file; a buffer takes any name.
    ///
    /// # Errors
    ///
    /// This function returns an error if the backend or the file name is not set, or if they do
    /// not fit together.
    pub fn check_backend_file_ext_compatibility(&self) -> (r: OpmResult<()>)
        requires
            self.wf(),
        ensures
            !(self.view().contains_key("backend"@) && self.view()["backend"@] is Backend) ==> r is Err,
            !(self.view().contains_key("fname"@) && self.view()["fname"@] is FName) ==> r is Err,
            (self.view().contains_key("backend"@) && self.view()["backend"@] == PlotArgs::Backend(PltBackEnd::Buf)
                && self.view().contains_key("fname"@) && self.view()["fname"@] is FName) ==> r is Ok,
            (self.view().contains_key("backend"@) && self.view()["backend"@] == PlotArgs::Backend(PltBackEnd::Bitmap)
                && self.view().contains_key("fname"@) && self.view()["fname"@] is FName && simple_path(self.view()["fname"@]->FName_0@))
                ==> (r is Ok <==> extension_among(path_extension(self.view()["fname"@]->FName_0@), seq!["png"@, "bmp"@, "jpg"@])),
            (self.view().contains_key("backend"@) && self.view()["backend"@] == PlotArgs::Backend(PltBackEnd::SVG)
                && self.view().contains_key("fname"@) && self.view()["fname"@] is FName && simple_path(self.view()["fname"@]->FName_0@))
                ==> (r is Ok <==> extension_among(path_extension(self.view()["fname"@]->FName_0@), seq!["svg"@])),
            r matches Err(e) ==> e is Other,
    {
        let backend = match self.get_backend() {
            Ok(b) => b,
            Err(e) => return Err(e),
        };
        let fname = match self.get_fname() {
            Ok(f) => f,
            Err(e) => return Err(e),
        };
        match backend {
            PltBackEnd::Bitmap => {
                let exts = vec!["png", "bmp", "jpg"];
                proof {
                    reveal_strlit("png");
                    reveal_strlit("bmp");
                    reveal_strlit("jpg");
                    assert(exts@.map_values(|e: &str| e@) =~= seq!["png"@, "bmp"@, "jpg"@]);
                }
                if check_file_ext_validity(fname.as_str(), &exts) {
                    Ok(())
                } else {
                    Err(OpossumError::Other("Incompatible file extension for DrawingBackend: BitmapBackend! Choose \".jpg\", \".bmp\" or \".png\" for this type of backend!".to_owned()))
                }
            },
            PltBackEnd::SVG => {
                let exts = vec!["svg"];
                proof {
                    reveal_strlit("svg");
                    assert(exts@.map_values(|e: &str| e@) =~= seq!["svg"@]);
                }
                if check_file_ext_validity(fname.as_str(), &exts) {
                    Ok(())
                } else {
                    Err(OpossumError::Other("Incompatible file extension for DrawingBackend: SVGBackend! Choose \".svg\"for this type of backend!".to_owned()))
                }
            },
            PltBackEnd::Buf => Ok(()),
        }
    }

    /// The stored value of the label of the x axis.
    ///
    /// # Errors
    ///
    /// This function returns an error if it is not set.
    pub fn get_x_label(&self) -> (r: OpmResult<String>)
        requires
            self.wf(),
        ensures
            r is Ok <==> self.view().contains_key("xlabel"@) && self.view()["xlabel"@] is XLabel,
            r matches Ok(v) ==> self.view()["xlabel"@] == PlotArgs::XLabel(v),
            r matches Err(e) ==> e is Other,
    {
        match self.params.get("xlabel") {
            Some(PlotArgs::XLabel(v)) => Ok(v.clone()),
            _ => Err(OpossumError::Other("xlabel argument not found!".to_owned())),
        }
    }

    /// The stored value of the label of the y axis.
    ///
    /// # Errors
    ///
    /// This function returns an error if it is not set.
    pub fn get_y_label(&self) -> (r: OpmResult<String>)
        requires
            self.wf(),
        ensures
            r is Ok <==> self.view().contains_key("ylabel"@) && self.view()["ylabel"@] is YLabel,
            r matches Ok(v) ==> self.view()["ylabel"@] == PlotArgs::YLabel(v),
            r matches Err(e) ==> e is Other,
    {
        match self.params.get("ylabel") {
            Some(PlotArgs::YLabel(v)) => Ok(v.clone()),
            _ => Err(OpossumError::Other("ylabel argument not found!".to_owned())),
        }
    }

    /// The stored value of the position of the x label.
    ///
    /// # Errors
    ///
    /// This function returns an error if it is not set.
    pub fn get_x_label_pos(&self) -> (r: OpmResult<LabelPos>)
        requires
            self.wf(),
        ensures
            r is Ok <==> self.view().contains_key("xlabelpos"@) && self.view()["xlabelpos"@] is XLabelPos,
            r matches Ok(v) ==> self.view()["xlabelpos"@] == PlotArgs::XLabelPos(v),
            r matches Err(e) ==> e is Other,
    {
        match self.params.get("xlabelpos") {
            Some(PlotArgs::XLabelPos(v)) => Ok(*v),
            _ => Err(OpossumError::Other("xlabelpos argument not found!".to_owned())),
        }
    }

    /// The stored value of the position of the y label.
    ///
    /// # Errors
    ///
    /// This function returns an error if it is not set.
    pub fn get_y_label_pos(&self) -> (r: OpmResult<LabelPos>)
        requires
            self.wf(),
        ensures
            r is Ok <==> self.view().contains_key("ylabelpos"@) && self.view()["ylabelpos"@] is YLabelPos,
            r matches Ok(v) ==> self.view()["ylabelpos"@] == PlotArgs::YLabelPos(v),
            r matches Err(e) ==> e is Other,
    {
        match self.params.get("ylabelpos") {
            Some(PlotArgs::YLabelPos(v)) => Ok(*v),
            _ => Err(OpossumError::Other("ylabelpos argument not found!".to_owned())),
        }
    }

    /// The stored value of the view direction of a 3d plot.
    ///
    /// # Errors
    ///
    /// This function returns an error if it is not set.
    pub fn get_3d_view(&self) -> (r: OpmResult<(u64, u64, u64)>)
        requires
            self.wf(),
        ensures
            r is Ok <==> self.view().contains_key("view3d"@) && self.view()["view3d"@] is ViewDirection3D,
            r matches Ok(v) ==> self.view()["view3d"@] == PlotArgs::ViewDirection3D(v),
            r matches Err(e) ==> e is Other,
    {
        match self.params.get("view3d") {
            Some(PlotArgs::ViewDirection3D(v)) => Ok(*v),
            _ => Err(OpossumError::Other("view3d argument not found!".to_owned())),
        }
    }

    /// The stored value of the plotting backend.
    ///
    /// # Errors
    ///
    /// This function returns an error if it is not set.
    pub fn get_backend(&self) -> (r: OpmResult<PltBackEnd>)
        requires
            self.wf(),
        ensures
            r is Ok <==> self.view().contains_key("backend"@) && self.view()["backend"@] is Backend,
            r matches Ok(v) ==> self.view()["backend"@] == PlotArgs::Backend(v),
            r matches Err(e) ==> e is Other,
    {
        match self.params.get("backend") {
            Some(PlotArgs::Backend(v)) => Ok(*v),
            _ => Err(OpossumError::Other("backend argument not found!".to_owned())),
        }
    }

    /// The stored value of the color gradient.
    ///
    /// # Errors
    ///
    /// This function returns an error if it is not set.
    pub fn get_cmap(&self) -> (r: OpmResult<CGradient>)
        requires
            self.wf(),
        ensures
            r is Ok <==> self.view().contains_key("cmap"@) && self.view()["cmap"@] is CMap,
            r matches Ok(v) ==> self.view()["cmap"@] == PlotArgs::CMap(v),
            r matches Err(e) ==> e is Other,
    {
        match self.params.get("cmap") {
            Some(PlotArgs::CMap(v)) => Ok(*v),
            _ => Err(OpossumError::Other("cmap argument not found!".to_owned())),
        }
    }

    /// The stored value of the label of the color bar.
    ///
    /// # Errors
    ///
    /// This function returns an error if it is not set.
    pub fn get_cbar_label(&self) -> (r: OpmResult<String>)
        requires
            self.wf(),
        ensures
            r is Ok <==> self.view().contains_key("cbarlabel"@) && self.view()["cbarlabel"@] is CBarLabel,
            r matches Ok(v) ==> self.view()["cbarlabel"@] == PlotArgs::CBarLabel(v),
            r matches Err(e) ==> e is Other,
    {
        match self.params.get("cbarlabel") {
            Some(PlotArgs::CBarLabel(v)) => Ok(v.clone()),
            _ => Err(OpossumError::Other("cbarlabel argument not found!".to_owned())),
        }
    }

    /// The stored value of the position of the color bar label.
    ///
    /// # Errors
    ///
    /// This function returns an error if it is not set.
    pub fn get_cbar_label_pos(&self) -> (r: OpmResult<LabelPos>)
        requires
            self.wf(),
        ensures
            r is Ok <==> self.view().contains_key("cbarlabelpos"@) && self.view()["cbarlabelpos"@] is CBarLabelPos,
            r matches Ok(v) ==> self.view()["cbarlabelpos"@] == PlotArgs::CBarLabelPos(v),
            r matches Err(e) ==> e is Other,
    {
        match self.params.get("cbarlabelpos") {
            Some(PlotArgs::CBarLabelPos(v)) => Ok(*v),
            _ => Err(OpossumError::Other("cbarlabelpos argument not found!".to_owned())),
        }
    }

    /// The stored value of the file name.
    ///
    /// # Errors
    ///
    /// This function returns an error if it is not set.
    pub fn get_fname(&self) -> (r: OpmResult<String>)
        requires
            self.wf(),
        ensures
            r is Ok <==> self.view().contains_key("fname"@) && self.view()["fname"@] is FName,
            r matches Ok(v) ==> self.view()["fname"@] == PlotArgs::FName(v),
            r matches Err(e) ==> e is Other,
    {
        match self.params.get("fname") {
            Some(PlotArgs::FName(v)) => Ok(v.clone()),
            _ => Err(OpossumError::Other("fpath argument not found!".to_owned())),
        }
    }

    /// The stored value of the directory.
    ///
    /// # Errors
    ///
    /// This function returns an error if it is not set.
    pub fn get_fdir(&self) -> (r: OpmResult<String>)
        requires
            self.wf(),
        ensures
            r is Ok <==> self.view().contains_key("fdir"@) && self.view()["fdir"@] is FDir,
            r matches Ok(v) ==> self.view()["fdir"@] == PlotArgs::FDir(v),
            r matches Err(e) ==> e is Other,
    {
        match self.params.get("fdir") {
            Some(PlotArgs::FDir(v)) => Ok(v.clone()),
            _ => Err(OpossumError::Other("fdir argument not found!".to_owned())),
        }
    }

    /// The stored value of the limits of the x axis.
    ///
    /// # Errors
    ///
    /// This function returns an error if it is not set.
    pub fn get_xlim(&self) -> (r: OpmResult<Option<AxLims>>)
        requires
            self.wf(),
        ensures
            r is Ok <==> self.view().contains_key("xlim"@) && self.view()["xlim"@] is XLim,
            r matches Ok(v) ==> self.view()["xlim"@] == PlotArgs::XLim(v),
            r matches Err(e) ==> e is Other,
    {
        match self.params.get("xlim") {
            Some(PlotArgs::XLim(v)) => Ok(*v),
            _ => Err(OpossumError::Other("xlim argument not found!".to_owned())),
        }
    }

    /// The stored value of the limits of the y axis.
    ///
    /// # Errors
    ///
    /// This function returns an error if it is not set.
    pub fn get_ylim(&self) -> (r: OpmResult<Option<AxLims>>)
        requires
            self.wf(),
        ensures
            r is Ok <==> self.view().contains_key("ylim"@) && self.view()["ylim"@] is YLim,
            r matches Ok(v) ==> self.view()["ylim"@] == PlotArgs::YLim(v),
            r matches Err(e) ==> e is Other,
    {
        match self.params.get("ylim") {
            Some(PlotArgs::YLim(v)) => Ok(*v),
            _ => Err(OpossumError::Other("ylim argument not found!".to_owned())),
        }
    }

    /// The stored value of the limits of the z axis.
    ///
    /// # Errors
    ///
    /// This function returns an error if it is not set.
    pub fn get_zlim(&self) -> (r: OpmResult<Option<AxLims>>)
        requires
            self.wf(),
        ensures
            r is Ok <==> self.view().contains_key("zlim"@) && self.view()["zlim"@] is ZLim,
            r matches Ok(v) ==> self.view()["zlim"@] == PlotArgs::ZLim(v),
            r matches Err(e) ==> e is Other,
    {
        match self.params.get("zlim") {
            Some(PlotArgs::ZLim(v)) => Ok(*v),
            _ => Err(OpossumError::Other("zlim argument not found!".to_owned())),
        }
    }

    /// The stored value of whether the axes are scaled equally.
    ///
    /// # Errors
    ///
    /// This function returns an error if it is not set.
    pub fn get_axis_equal_flag(&self) -> (r: OpmResult<bool>)
        requires
            self.wf(),
        ensures
            r is Ok <==> self.view().contains_key("axisequal"@) && self.view()["axisequal"@] is AxisEqual,
            r matches Ok(v) ==> self.view()["axisequal"@] == PlotArgs::AxisEqual(v),
            r matches Err(e) ==> e is Other,
    {
        match self.params.get("axisequal") {
            Some(PlotArgs::AxisEqual(v)) => Ok(*v),
            _ => Err(OpossumError::Other("axisequal argument not found!".to_owned())),
        }
    }

    /// The stored value of whether the plot size is chosen automatically.
    ///
    /// # Errors
    ///
    /// This function returns an error if it is not set.
    pub fn get_plot_auto_size_flag(&self) -> (r: OpmResult<bool>)
        requires
            self.wf(),
        ensures
            r is Ok <==> self.view().contains_key("plotautosize"@) && self.view()["plotautosize"@] is PlotAutoSize,
            r matches Ok(v) ==> self.view()["plotautosize"@] == PlotArgs::PlotAutoSize(v),
            r matches Err(e) ==> e is Other,
    {
        match self.params.get("plotautosize") {
            Some(PlotArgs::PlotAutoSize(v)) => Ok(*v),
            _ => Err(OpossumError::Other("plotautosize argument not found!".to_owned())),
        }
    }

    /// The stored value of whether the axis bounds are expanded.
    ///
    /// # Errors
    ///
    /// This function returns an error if it is not set.
    pub fn get_expand_bounds_flag(&self) -> (r: OpmResult<bool>)
        requires
            self.wf(),
        ensures
            r is Ok <==> self.view().contains_key("expandbounds"@) && self.view()["expandbounds"@] is ExpandBounds,
            r matches Ok(v) ==> self.view()["expandbounds"@] == PlotArgs::ExpandBounds(v),
            r matches Err(e) ==> e is Other,
    {
        match self.params.get("expandbounds") {
            Some(PlotArgs::ExpandBounds(v)) => Ok(*v),
            _ => Err(OpossumError::Other("expandbounds argument not found!".to_owned())),
        }
    }

    /// The stored value of the image size in pixels.
    ///
    /// # Errors
    ///
    /// This function returns an error if it is not set.
    pub fn get_plotsize(&self) -> (r: OpmResult<(u32, u32)>)
        requires
            self.wf(),
        ensures
            r is Ok <==> self.view().contains_key("plotsize"@) && self.view()["plotsize"@] is PlotSize,
            r matches Ok(v) ==> self.view()["plotsize"@] == PlotArgs::PlotSize(v),
            r matches Err(e) ==> e is Other,
    {
        match self.params.get("plotsize") {
            Some(PlotArgs::PlotSize(v)) => Ok(*v),
            _ => Err(OpossumError::Other("plotsize argument not found!".to_owned())),
        }
    }

    /// The stored value of whether a legend is shown.
    ///
    /// # Errors
    ///
    /// This function returns an error if it is not set.
    pub fn get_legend_flag(&self) -> (r: OpmResult<bool>)
        requires
            self.wf(),
        ensures
            r is Ok <==> self.view().contains_key("legend"@) && self.view()["legend"@] is Legend,
            r matches Ok(v) ==> self.view()["legend"@] == PlotArgs::Legend(v),
            r matches Err(e) ==> e is Other,
    {
        match self.params.get("legend") {
            Some(PlotArgs::Legend(v)) => Ok(*v),
            _ => Err(OpossumError::Other("legend argument not found!".to_owned())),
        }
    }
}

/// The keys of the plot arguments differ from each other.
proof fn lemma_keys_distinct()
    ensures
        forall|a: PlotArgs, b: PlotArgs| arg_key(a) == arg_key(b) ==> arg_kind(a) == arg_kind(b),
{
    reveal_strlit("xlabel");
    reveal_strlit("ylabel");
    reveal_strlit("xlabelpos");
    reveal_strlit("ylabelpos");
    reveal_strlit("cmap");
    reveal_strlit("xlim");
    reveal_strlit("ylim");
    reveal_strlit("zlim");
    reveal_strlit("axisequal");
    reveal_strlit("plotautosize");
    reveal_strlit("expandbounds");
    reveal_strlit("plotsize");
    reveal_strlit("cbarlabelpos");
    reveal_strlit("cbarlabel");
    reveal_strlit("fdir");
    reveal_strlit("fname");
    reveal_strlit("backend");
    reveal_strlit("view3d");
    reveal_strlit("legend");
    assert forall|a: PlotArgs, b: PlotArgs| arg_key(a) == arg_key(b) implies arg_kind(a) == arg_kind(b) by {
        if arg_kind(a) != arg_kind(b) {
            let ka = arg_key(a);
            let kb = arg_key(b);
            if ka.len() == kb.len() {
                assert(ka[0] != kb[0] || ka[1] != kb[1] || ka[2] != kb[2] || ka[3] != kb[3]);
            }
        }
    }
}

/// Where the labels may stand and which sizes a plot may have: the x-axis label at the bottom
/// or the top, the y-axis and color-bar labels on the left or the right; a plot size needs a
/// nonzero width and height; axis limits are either left to the data or usable; a directory
/// must exist.
pub proof fn lemma_plot_argument_validity(
    p: LabelPos,
    w: u32,
    h: u32,
    lims: Option<AxLims>,
    dir: String,
    fdir_exists: bool,
    lims_valid: bool,
)
    ensures
        arg_valid(PlotArgs::XLabelPos(p), fdir_exists, lims_valid) <==> (p == LabelPos::Bottom || p == LabelPos::Top),
        arg_valid(PlotArgs::YLabelPos(p), fdir_exists, lims_valid) <==> (p == LabelPos::Left || p == LabelPos::Right),
        arg_valid(PlotArgs::CBarLabelPos(p), fdir_exists, lims_valid) <==> (p == LabelPos::Left || p == LabelPos::Right),
        arg_valid(PlotArgs::PlotSize((w, h)), fdir_exists, lims_valid) <==> (w > 0 && h > 0),
        arg_valid(PlotArgs::XLim(lims), fdir_exists, lims_valid) <==> (lims is None || lims_valid),
        arg_valid(PlotArgs::YLim(lims), fdir_exists, lims_valid) <==> (lims is None || lims_valid),
        arg_valid(PlotArgs::ZLim(lims), fdir_exists, lims_valid) <==> (lims is None || lims_valid),
        arg_valid(PlotArgs::FDir(dir), fdir_exists, lims_valid) <==> fdir_exists,
{
}

/// Labels, the color map, the flags, the backend, the view direction and the legend may
/// always be set.
pub proof fn lemma_unconditional_plot_arguments(a: PlotArgs, fdir_exists: bool, lims_valid: bool)
    requires
        a is XLabel || a is YLabel || a is CBarLabel || a is CMap || a is AxisEqual || a is PlotAutoSize
            || a is ExpandBounds || a is Backend || a is ViewDirection3D || a is Legend,
    ensures
        arg_valid(a, fdir_exists, lims_valid),
{
}

} // verus!
