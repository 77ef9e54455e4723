//! Images that go out with a prompt: which can, and which words of a draft name
//! one.

use vstd::prelude::*;

use crate::model::image::{is_supported_image, supported};
use crate::text::{
    after_last, after_last_char, cat, cat3, chars_of, contains, dec, decimal, has_infix,
    has_prefix, has_whitespace, holds_whitespace, lines, lines_of, lowercase, same, starts_with,
    text_of, texts, to_lowercase, trim, trimmed, whitespace,
};
use crate::wire::MediaType;

verus! {

/// An image that was read and encoded, ready to be sent.
#[derive(Debug, PartialEq, Eq)]
pub struct ImageAttachment {
    pub path: String,
    pub media_type: MediaType,
    pub data_base64: String,
    pub bytes: usize,
}

/// The images that go out with the next prompt.
#[derive(Debug, PartialEq, Eq)]
pub struct ImageAttachmentState {
    pub pending: Vec<ImageAttachment>,
    /// Whether a prompt with images is under way.
    pub inflight: bool,
    pub last_error_code: Option<String>,
}

/// The size of images together.
pub open spec fn bytes_of(v: Seq<ImageAttachment>) -> nat
    decreases v.len(),
{
    if v.len() == 0 {
        0
    } else {
        bytes_of(v.drop_last()) + v.last().bytes as nat
    }
}

/// Why an image is refused by its media type: the server's list has the last
/// word, where there is one.
pub open spec fn type_refusal(t: Seq<char>, allowed: Option<Seq<Seq<char>>>) -> Option<Seq<char>> {
    if !supported(t) {
        Some("不支持的图片类型："@ + t)
    } else if allowed is Some && !allowed->0.contains(t) {
        Some("服务端不允许的图片类型："@ + t)
    } else {
        None
    }
}

/// Why images are refused by their media types: by the first that is.
pub open spec fn types_refusal(
    v: Seq<ImageAttachment>,
    allowed: Option<Seq<Seq<char>>>,
) -> Option<Seq<char>>
    decreases v.len(),
{
    if v.len() == 0 {
        None
    } else {
        match types_refusal(v.drop_last(), allowed) {
            Some(m) => Some(m),
            None => type_refusal(v.last().media_type@, allowed),
        }
    }
}

/// Why images are refused by what the server takes: too many, too large
/// together, or a media type.
pub open spec fn refusal(
    v: Seq<ImageAttachment>,
    max_bytes: Option<usize>,
    max_images: Option<usize>,
    allowed: Option<Seq<Seq<char>>>,
) -> Option<Seq<char>> {
    if max_images is Some && v.len() > max_images->0 {
        Some("图片数量超过上限（"@ + decimal(max_images->0 as nat) + "）"@)
    } else if max_bytes is Some && bytes_of(v) > max_bytes->0 {
        Some("图片总大小超过上限（"@ + decimal(max_bytes->0 as nat) + " 字节）"@)
    } else {
        types_refusal(v, allowed)
    }
}

/// Why images are refused by size, each by itself: by the first that is.
pub open spec fn size_refusal(v: Seq<ImageAttachment>, max: u64) -> Option<Seq<char>>
    decreases v.len(),
{
    if v.len() == 0 {
        None
    } else {
        match size_refusal(v.drop_last(), max) {
            Some(m) => Some(m),
            None => if v.last().bytes > max {
                Some(
                    "单张图片超过本地上限（"@ + decimal(v.last().bytes as nat) + " 字节 > "@
                        + decimal(max as nat) + " 字节），请压缩或换图"@,
                )
            } else {
                None
            },
        }
    }
}

/// Why images are refused by what the user set: too many, or one too large.
pub open spec fn local_refusal(v: Seq<ImageAttachment>, max_count: usize, max: u64) -> Option<
    Seq<char>,
> {
    if v.len() > max_count {
        Some("图片数量超过本地上限（"@ + decimal(max_count as nat) + " 张，可配置）"@)
    } else {
        size_refusal(v, max)
    }
}

/// Whether a result says what is refused.
pub open spec fn says(r: Result<(), String>, why: Option<Seq<char>>) -> bool {
    match r {
        Ok(_) => why is None,
        Err(m) => why == Some(m@),
    }
}

/// An optional list of texts.
pub open spec fn opt_texts(o: Option<&[String]>) -> Option<Seq<Seq<char>>> {
    match o {
        Some(v) => Some(texts(v@)),
        None => None,
    }
}

proof fn lemma_types_refusal(v: Seq<ImageAttachment>, allowed: Option<Seq<Seq<char>>>, i: int)
    requires
        0 <= i <= v.len(),
        types_refusal(v.take(i), allowed) is Some,
    ensures
        types_refusal(v, allowed) == types_refusal(v.take(i), allowed),
    decreases v.len() - i,
{
    if i < v.len() {
        assert(v.take(i + 1).drop_last() =~= v.take(i));
        lemma_types_refusal(v, allowed, i + 1);
    } else {
        assert(v.take(i) =~= v);
    }
}

proof fn lemma_size_refusal(v: Seq<ImageAttachment>, max: u64, i: int)
    requires
        0 <= i <= v.len(),
        size_refusal(v.take(i), max) is Some,
    ensures
        size_refusal(v, max) == size_refusal(v.take(i), max),
    decreases v.len() - i,
{
    if i < v.len() {
        assert(v.take(i + 1).drop_last() =~= v.take(i));
        lemma_size_refusal(v, max, i + 1);
    } else {
        assert(v.take(i) =~= v);
    }
}

proof fn lemma_bytes_step(v: Seq<ImageAttachment>, i: int)
    requires
        0 <= i < v.len(),
    ensures
        bytes_of(v.take(i + 1)) == bytes_of(v.take(i)) + v[i].bytes,
{
    assert(v.take(i + 1).drop_last() =~= v.take(i));
}

proof fn lemma_bytes_prefix(v: Seq<ImageAttachment>, i: int)
    requires
        0 <= i <= v.len(),
    ensures
        bytes_of(v.take(i)) <= bytes_of(v),
    decreases v.len() - i,
{
    if i < v.len() {
        lemma_bytes_step(v, i);
        lemma_bytes_prefix(v, i + 1);
    } else {
        assert(v.take(i) =~= v);
    }
}

fn lists(allowed: &[String], t: &str) -> (r: bool)
    ensures
        r == texts(allowed@).contains(t@),
{
    let mut i: usize = 0;
    while i < allowed.len()
        invariant
            i <= allowed@.len(),
            forall|k: int| 0 <= k < i ==> #[trigger] texts(allowed@)[k] != t@,
        decreases allowed@.len() - i,
    {
        assert(texts(allowed@)[i as int] == allowed@[i as int]@);
        if same(allowed[i].as_str(), t) {
            return true;
        }
        i = i + 1;
    }
    false
}

fn refuse_type(t: &str, allowed: Option<&[String]>) -> (r: Option<String>)
    ensures
        crate::text::opt_text(r) == type_refusal(t@, opt_texts(allowed)),
{
    if !is_supported_image(t) {
        return Some(cat("不支持的图片类型：", t));
    }
    match allowed {
        Some(v) => if !lists(v, t) {
            Some(cat("服务端不允许的图片类型：", t))
        } else {
            None
        },
        None => None,
    }
}

impl Default for ImageAttachmentState {
    fn default() -> (r: Self)
        ensures
            r.pending@.len() == 0,
            !r.inflight,
            r.last_error_code is None,
    {
        ImageAttachmentState { pending: Vec::new(), inflight: false, last_error_code: None }
    }
}

impl ImageAttachmentState {
    /// Adds an image.
    pub fn add(&mut self, att: ImageAttachment)
        ensures
            final(self).pending@ == old(self).pending@.push(att),
            final(self).inflight == old(self).inflight,
            final(self).last_error_code == old(self).last_error_code,
    {
        self.pending.push(att);
    }

    /// Drops all images.
    pub fn clear_pending(&mut self)
        ensures
            final(self).pending@.len() == 0,
            final(self).inflight == old(self).inflight,
            final(self).last_error_code == old(self).last_error_code,
    {
        self.pending = Vec::new();
    }

    /// The size of the images together.
    pub fn total_bytes(&self) -> (r: usize)
        requires
            bytes_of(self.pending@) <= usize::MAX,
        ensures
            r == bytes_of(self.pending@),
    {
        let mut sum: usize = 0;
        let mut i: usize = 0;
        while i < self.pending.len()
            invariant
                i <= self.pending@.len(),
                sum == bytes_of(self.pending@.take(i as int)),
                bytes_of(self.pending@) <= usize::MAX,
            decreases self.pending@.len() - i,
        {
            proof {
                lemma_bytes_step(self.pending@, i as int);
                lemma_bytes_prefix(self.pending@, i + 1);
            }
            sum = sum + self.pending[i].bytes;
            i = i + 1;
        }
        assert(self.pending@.take(i as int) =~= self.pending@);
        sum
    }

    fn over(&self, max: usize) -> (r: bool)
        ensures
            r == (bytes_of(self.pending@) > max),
    {
        let mut left: usize = max;
        let mut i: usize = 0;
        while i < self.pending.len()
            invariant
                i <= self.pending@.len(),
                left + bytes_of(self.pending@.take(i as int)) == max,
            decreases self.pending@.len() - i,
        {
            proof {
                lemma_bytes_step(self.pending@, i as int);
                lemma_bytes_prefix(self.pending@, i + 1);
            }
            if self.pending[i].bytes > left {
                return true;
            }
            left = left - self.pending[i].bytes;
            i = i + 1;
        }
        assert(self.pending@.take(i as int) =~= self.pending@);
        false
    }

    /// Holds the images against what the server takes.
    pub fn validate(
        &self,
        max_image_bytes: Option<usize>,
        max_images: Option<usize>,
        allowed_media_types: Option<&[String]>,
    ) -> (r: Result<(), String>)
        ensures
            says(
                r,
                refusal(
                    self.pending@,
                    max_image_bytes,
                    max_images,
                    opt_texts(allowed_media_types),
                ),
            ),
    {
        if let Some(max) = max_images {
            if self.pending.len() > max {
                return Err(cat3("图片数量超过上限（", dec(max as u64).as_str(), "）"));
            }
        }
        if let Some(max) = max_image_bytes {
            if self.over(max) {
                return Err(
                    cat3("图片总大小超过上限（", dec(max as u64).as_str(), " 字节）"),
                );
            }
        }
        let ghost allowed = opt_texts(allowed_media_types);
        let mut i: usize = 0;
        while i < self.pending.len()
            invariant
                i <= self.pending@.len(),
                allowed == opt_texts(allowed_media_types),
                types_refusal(self.pending@.take(i as int), allowed) is None,
                refusal(self.pending@, max_image_bytes, max_images, allowed) == types_refusal(
                    self.pending@,
                    allowed,
                ),
            decreases self.pending@.len() - i,
        {
            proof {
                assert(self.pending@.take(i + 1).drop_last() =~= self.pending@.take(i as int));
                assert(self.pending@.take(i + 1).last() == self.pending@[i as int]);
            }
            if let Some(m) = refuse_type(self.pending[i].media_type.0.as_str(), allowed_media_types)
            {
                proof {
                    lemma_types_refusal(self.pending@, allowed, i + 1);
                }
                return Err(m);
            }
            i = i + 1;
        }
        assert(self.pending@.take(i as int) =~= self.pending@);
        Ok(())
    }

    /// Holds the images against what the user set, each by itself.
    pub fn validate_local_soft_limit(&self, max_count: usize, max_per_image_bytes: u64) -> (r:
        Result<(), String>)
        ensures
            says(r, local_refusal(self.pending@, max_count, max_per_image_bytes)),
    {
        if self.pending.len() > max_count {
            return Err(
                cat3(
                    "图片数量超过本地上限（",
                    dec(max_count as u64).as_str(),
                    " 张，可配置）",
                ),
            );
        }
        let mut i: usize = 0;
        while i < self.pending.len()
            invariant
                i <= self.pending@.len(),
                self.pending@.len() <= max_count,
                size_refusal(self.pending@.take(i as int), max_per_image_bytes) is None,
            decreases self.pending@.len() - i,
        {
            let bytes: usize = self.pending[i].bytes;
            proof {
                assert(self.pending@.take(i + 1).drop_last() =~= self.pending@.take(i as int));
                assert(self.pending@.take(i + 1).last() == self.pending@[i as int]);
            }
            if bytes as u64 > max_per_image_bytes {
                proof {
                    lemma_size_refusal(self.pending@, max_per_image_bytes, i + 1);
                }
                let mut m = cat3(
                    "单张图片超过本地上限（",
                    dec(bytes as u64).as_str(),
                    " 字节 > ",
                );
                m.append(dec(max_per_image_bytes).as_str());
                m.append(" 字节），请压缩或换图");
                return Err(m);
            }
            i = i + 1;
        }
        assert(self.pending@.take(i as int) =~= self.pending@);
        Ok(())
    }
}

/// The media type for an extension in small letters.
pub open spec fn type_of_extension(ext: Seq<char>) -> Option<Seq<char>> {
    if ext == "png"@ {
        Some("image/png"@)
    } else if ext == "jpg"@ || ext == "jpeg"@ {
        Some("image/jpeg"@)
    } else if ext == "webp"@ {
        Some("image/webp"@)
    } else if ext == "gif"@ {
        Some("image/gif"@)
    } else {
        None
    }
}

/// The words for an extension that is not known.
pub open spec fn unknown_extension(ext: Seq<char>) -> Seq<char> {
    "无法识别的图片扩展名：."@ + ext + "（支持 png/jpg/jpeg/webp/gif）"@
}

/// The media type for an extension in small letters; an error where it is not
/// known.
pub fn media_type_from_extension(ext: &str) -> (r: Result<MediaType, String>)
    ensures
        match r {
            Ok(t) => type_of_extension(ext@) == Some(t@),
            Err(m) => type_of_extension(ext@) is None && m@ == unknown_extension(ext@),
        },
{
    let t = if same(ext, "png") {
        "image/png"
    } else if same(ext, "jpg") || same(ext, "jpeg") {
        "image/jpeg"
    } else if same(ext, "webp") {
        "image/webp"
    } else if same(ext, "gif") {
        "image/gif"
    } else {
        return Err(cat3("无法识别的图片扩展名：.", ext, "（支持 png/jpg/jpeg/webp/gif）"));
    };
    Ok(MediaType(t.to_owned()))
}

/// The extension of a path, in small letters: what stands behind the last dot,
/// all of it where there is none.
pub open spec fn extension(path: Seq<char>) -> Seq<char> {
    lowercase(after_last_char(path, '.'))
}

/// The media type for the extension of a path.
pub fn media_type_from_path(path: &str) -> (r: Result<MediaType, String>)
    ensures
        match r {
            Ok(t) => type_of_extension(extension(path@)) == Some(t@),
            Err(m) => type_of_extension(extension(path@)) is None && m@ == unknown_extension(
                extension(path@),
            ),
        },
{
    let cs = after_last(&chars_of(path), '.');
    let n: usize = cs.len();
    let tail = text_of(&cs, 0, n);
    assert(tail@ =~= cs@);
    let ext = to_lowercase(tail.as_str());
    media_type_from_extension(ext.as_str())
}

/// Whether a character is an ASCII letter.
pub open spec fn is_letter(c: char) -> bool {
    ('a' <= c && c <= 'z') || ('A' <= c && c <= 'Z')
}

/// Whether a text without space around it names a local path: it has no
/// whitespace, is no address, mention or session, and begins as a path does.
pub open spec fn is_local(t: Seq<char>) -> bool {
    &&& t.len() > 0
    &&& !has_whitespace(t)
    &&& !has_infix(t, "://"@)
    &&& !has_infix(t, "dsh-session:"@)
    &&& !has_prefix(t, "@"@)
    &&& has_prefix(t, "/"@) || has_prefix(t, "./"@) || has_prefix(t, "../"@) || has_prefix(
        t,
        "~/"@,
    ) || (t.len() > 1 && is_letter(t[0]) && t[1] == ':')
}

/// Whether a line names a local path. An address, a mention or a session is
/// never taken for one.
pub fn looks_like_local_path(line: &str) -> (r: bool)
    ensures
        r == is_local(trimmed(line@)),
{
    let s = trim(line);
    let t = s.as_str();
    if t.is_empty() || holds_whitespace(t) {
        return false;
    }
    if contains(t, "://") || contains(t, "dsh-session:") || starts_with(t, "@") {
        return false;
    }
    if starts_with(t, "/") || starts_with(t, "./") || starts_with(t, "../") || starts_with(
        t,
        "~/",
    ) {
        return true;
    }
    let cs = chars_of(t);
    if cs.len() < 2 {
        return false;
    }
    let c = cs[0];
    (('a' <= c && c <= 'z') || ('A' <= c && c <= 'Z')) && cs[1] == ':'
}

/// Whether a line without space around it names a local image.
pub open spec fn is_image_path(t: Seq<char>) -> bool {
    t.len() > 0 && is_local(trimmed(t)) && type_of_extension(extension(t)) is Some
}

/// The local images that lines name, in their order.
pub open spec fn image_paths(lines: Seq<Seq<char>>) -> Seq<Seq<char>>
    decreases lines.len(),
{
    if lines.len() == 0 {
        Seq::empty()
    } else {
        let t = trimmed(lines.last());
        if is_image_path(t) {
            image_paths(lines.drop_last()).push(t)
        } else {
            image_paths(lines.drop_last())
        }
    }
}

/// The local images that the lines of a draft name. Any other line stays text.
pub fn image_path_lines(text: &str) -> (r: Vec<String>)
    ensures
        texts(r@) == image_paths(lines_of(text@)),
{
    let ls = lines(text);
    let ghost all = lines_of(text@);
    let mut r: Vec<String> = Vec::new();
    let mut i: usize = 0;
    assert(all.take(0) =~= Seq::empty());
    assert(texts(r@) =~= image_paths(all.take(0)));
    assert(all.len() == ls@.len());
    while i < ls.len()
        invariant
            i <= ls@.len(),
            all == texts(ls@),
            texts(r@) == image_paths(all.take(i as int)),
        decreases ls@.len() - i,
    {
        assert(all.take(i + 1).drop_last() =~= all.take(i as int));
        assert(all.take(i + 1).last() == ls@[i as int]@);
        let t = trim(ls[i].as_str());
        if !t.as_str().is_empty() && looks_like_local_path(t.as_str()) {
            if let Ok(_) = media_type_from_path(t.as_str()) {
                let ghost before = texts(r@);
                let ghost added = t@;
                r.push(t);
                assert(texts(r@) =~= before.push(added));
            }
        }
        i = i + 1;
    }
    assert(all.take(i as int) =~= all);
    r
}

proof fn lemma_image_paths(lines: Seq<Seq<char>>, i: int)
    requires
        0 <= i < image_paths(lines).len(),
    ensures
        is_image_path(image_paths(lines)[i]),
    decreases lines.len(),
{
    if lines.len() > 0 && i < image_paths(lines.drop_last()).len() {
        lemma_image_paths(lines.drop_last(), i);
    }
}

/// No line that is read as an image is an address or names a session.
pub proof fn law_only_local_paths_are_read(text: Seq<char>, i: int)
    requires
        0 <= i < image_paths(lines_of(text)).len(),
    ensures
        is_image_path(image_paths(lines_of(text))[i]),
        !has_infix(trimmed(image_paths(lines_of(text))[i]), "://"@),
        !has_infix(trimmed(image_paths(lines_of(text))[i]), "dsh-session:"@),
{
    lemma_image_paths(lines_of(text), i);
}

/// Images that are let through are within the limits, each of a type that can
/// be shown.
pub proof fn law_accepted_images_are_within_limits(
    v: Seq<ImageAttachment>,
    max_bytes: Option<usize>,
    max_images: Option<usize>,
    allowed: Option<Seq<Seq<char>>>,
    i: int,
)
    requires
        refusal(v, max_bytes, max_images, allowed) is None,
        0 <= i < v.len(),
    ensures
        max_images is Some ==> v.len() <= max_images->0,
        max_bytes is Some ==> bytes_of(v) <= max_bytes->0,
        supported(v[i].media_type@),
        allowed is Some ==> allowed->0.contains(v[i].media_type@),
    decreases v.len(),
{
    lemma_types_pass(v, allowed, i);
}

proof fn lemma_types_pass(v: Seq<ImageAttachment>, allowed: Option<Seq<Seq<char>>>, i: int)
    requires
        types_refusal(v, allowed) is None,
        0 <= i < v.len(),
    ensures
        type_refusal(v[i].media_type@, allowed) is None,
    decreases v.len(),
{
    if i < v.len() - 1 {
        lemma_types_pass(v.drop_last(), allowed, i);
        assert(v.drop_last()[i] == v[i]);
    }
}

/// Each image that is added makes them as much larger as it is itself.
pub proof fn law_sizes_add_up(v: Seq<ImageAttachment>, a: ImageAttachment)
    ensures
        bytes_of(Seq::empty()) == 0,
        bytes_of(v.push(a)) == bytes_of(v) + a.bytes,
{
    assert(v.push(a).drop_last() =~= v);
}

/// Images are let through where they are few enough, small enough together and
/// each of a kind that can be shown and that the server takes.
pub proof fn law_images_within_limits_are_accepted(
    v: Seq<ImageAttachment>,
    max_bytes: Option<usize>,
    max_images: Option<usize>,
    allowed: Option<Seq<Seq<char>>>,
)
    requires
        max_images is Some ==> v.len() <= max_images->0,
        max_bytes is Some ==> bytes_of(v) <= max_bytes->0,
        forall|i: int|
            0 <= i < v.len() ==> supported((#[trigger] v[i]).media_type@) && (allowed is Some
                ==> allowed->0.contains(v[i].media_type@)),
    ensures
        refusal(v, max_bytes, max_images, allowed) is None,
{
    lemma_types_accepted(v, allowed);
}

proof fn lemma_types_accepted(v: Seq<ImageAttachment>, allowed: Option<Seq<Seq<char>>>)
    requires
        forall|i: int|
            0 <= i < v.len() ==> supported((#[trigger] v[i]).media_type@) && (allowed is Some
                ==> allowed->0.contains(v[i].media_type@)),
    ensures
        types_refusal(v, allowed) is None,
    decreases v.len(),
{
    if v.len() > 0 {
        let front = v.drop_last();
        assert forall|i: int| 0 <= i < front.len() implies supported(
            (#[trigger] front[i]).media_type@,
        ) && (allowed is Some ==> allowed->0.contains(front[i].media_type@)) by {
            assert(front[i] == v[i]);
        }
        lemma_types_accepted(front, allowed);
        assert(v[v.len() - 1] == v.last());
    }
}

/// By what the user set, images are let through exactly where they are few
/// enough and none is too large.
pub proof fn law_local_limits_hold_each_image(
    v: Seq<ImageAttachment>,
    max_count: usize,
    max: u64,
    i: int,
)
    ensures
        v.len() > max_count ==> local_refusal(v, max_count, max) is Some,
        0 <= i < v.len() && v[i].bytes > max ==> local_refusal(v, max_count, max) is Some,
        v.len() <= max_count && (forall|k: int|
            0 <= k < v.len() ==> (#[trigger] v[k]).bytes <= max) ==> local_refusal(
            v,
            max_count,
            max,
        ) is None,
{
    lemma_sizes_refused(v, max, i);
}

proof fn lemma_sizes_refused(v: Seq<ImageAttachment>, max: u64, i: int)
    ensures
        0 <= i < v.len() && v[i].bytes > max ==> size_refusal(v, max) is Some,
        (forall|k: int| 0 <= k < v.len() ==> (#[trigger] v[k]).bytes <= max) ==> size_refusal(
            v,
            max,
        ) is None,
    decreases v.len(),
{
    if v.len() > 0 {
        let front = v.drop_last();
        lemma_sizes_refused(front, max, i);
        if 0 <= i < front.len() {
            assert(front[i] == v[i]);
        }
        assert(v[v.len() - 1] == v.last());
        if forall|k: int| 0 <= k < v.len() ==> (#[trigger] v[k]).bytes <= max {
            assert forall|k: int| 0 <= k < front.len() implies (#[trigger] front[k]).bytes
                <= max by {
                assert(front[k] == v[k]);
            }
        }
    }
}

/// Every extension that is known leads to a kind that can be shown, and every
/// such kind has one.
pub proof fn law_extensions_name_their_kind(ext: Seq<char>)
    ensures
        type_of_extension("png"@) == Some("image/png"@),
        type_of_extension("jpg"@) == Some("image/jpeg"@),
        type_of_extension("jpeg"@) == Some("image/jpeg"@),
        type_of_extension("webp"@) == Some("image/webp"@),
        type_of_extension("gif"@) == Some("image/gif"@),
        type_of_extension(ext) is Some ==> supported(type_of_extension(ext)->0),
        type_of_extension(ext) is Some <==> ext == "png"@ || ext == "jpg"@ || ext == "jpeg"@
            || ext == "webp"@ || ext == "gif"@,
{
    reveal_strlit("png");
    reveal_strlit("jpg");
    reveal_strlit("jpeg");
    reveal_strlit("webp");
    reveal_strlit("gif");
    assert("png"@[0] == 'p' && "jpg"@[0] == 'j' && "gif"@[0] == 'g');
    assert("jpeg"@[0] == 'j' && "webp"@[0] == 'w');
    assert("jpg"@.len() == 3 && "jpeg"@.len() == 4);
}

/// The images that the lines of a draft name keep their order: a line more adds
/// the path on it, and nothing where it names none.
pub proof fn law_lines_add_their_image(lines: Seq<Seq<char>>, line: Seq<char>)
    ensures
        image_paths(Seq::empty()).len() == 0,
        is_image_path(trimmed(line)) ==> image_paths(lines.push(line)) == image_paths(lines).push(
            trimmed(line),
        ),
        !is_image_path(trimmed(line)) ==> image_paths(lines.push(line)) == image_paths(lines),
{
    assert(lines.push(line).drop_last() =~= lines);
}

proof fn lemma_begins_with(t: Seq<char>, p: Seq<char>)
    requires
        p.len() > 0,
    ensures
        has_prefix(t, p) ==> t.len() > 0 && t[0] == p[0],
        p.len() == 1 && t.len() > 0 && t[0] == p[0] ==> has_prefix(t, p),
{
    let n = p.len() as int;
    if has_prefix(t, p) {
        assert(t.subrange(0, n)[0] == t[0]);
    }
    if n == 1 && t.len() > 0 && t[0] == p[0] {
        assert(t.subrange(0, n) =~= p);
    }
}

proof fn lemma_path_beginnings(t: Seq<char>)
    ensures
        has_prefix(t, "@"@) <==> t.len() > 0 && t[0] == '@',
        has_prefix(t, "/"@) <==> t.len() > 0 && t[0] == '/',
        has_prefix(t, "./"@) ==> t[0] == '.',
        has_prefix(t, "../"@) ==> t[0] == '.',
        has_prefix(t, "~/"@) ==> t[0] == '~',
{
    assert("@"@.len() == 1 && "@"@[0] == '@') by {
        reveal_strlit("@");
    }
    assert("/"@.len() == 1 && "/"@[0] == '/') by {
        reveal_strlit("/");
    }
    assert("./"@.len() == 2 && "./"@[0] == '.') by {
        reveal_strlit("./");
    }
    assert("../"@.len() == 3 && "../"@[0] == '.') by {
        reveal_strlit("../");
    }
    assert("~/"@.len() == 2 && "~/"@[0] == '~') by {
        reveal_strlit("~/");
    }
    lemma_begins_with(t, "@"@);
    lemma_begins_with(t, "/"@);
    lemma_begins_with(t, "./"@);
    lemma_begins_with(t, "../"@);
    lemma_begins_with(t, "~/"@);
}

/// A text with whitespace in it, an address, a mention and a session name no
/// local path.
pub proof fn law_addresses_are_no_paths(t: Seq<char>, i: int)
    ensures
        0 <= i < t.len() && whitespace(t[i]) ==> !is_local(t),
        has_infix(t, "://"@) ==> !is_local(t),
        has_infix(t, "dsh-session:"@) ==> !is_local(t),
        t.len() > 0 && t[0] == '@' ==> !is_local(t),
        t.len() == 0 ==> !is_local(t),
{
    lemma_path_beginnings(t);
}

/// A local path begins as one; what begins with a slash is one, unless it has
/// whitespace in it or is an address or a session.
pub proof fn law_local_paths_begin_as_paths(t: Seq<char>)
    ensures
        is_local(t) ==> t[0] == '/' || t[0] == '.' || t[0] == '~' || (t.len() > 1 && t[1] == ':'),
        t.len() > 0 && t[0] == '/' && !has_infix(t, "://"@) && !has_infix(t, "dsh-session:"@)
            && !has_whitespace(t) ==> is_local(t),
{
    lemma_path_beginnings(t);
}

} // verus!
