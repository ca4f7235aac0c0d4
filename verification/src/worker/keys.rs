//! What cache keys tell apart.
use crate::source::PageId;
use crate::state::{CpuScaleFilter, DecoderPreference, DecoderPreferences};
use crate::text;
use crate::worker::api::{CachedPageKey, DecodeOptions, DecodeStrategy};
use crate::worker::{api, cache};
use vstd::prelude::*;

verus! {

/// Two texts that start with parts of one length are equal only where both parts are.
proof fn lemma_split(a: Seq<char>, b: Seq<char>, c: Seq<char>, d: Seq<char>)
    requires
        a + b == c + d,
        a.len() == c.len(),
    ensures
        a == c,
        b == d,
{
    let whole = a + b;
    assert(whole.take(a.len() as int) =~= a);
    assert((c + d).take(c.len() as int) =~= c);
    assert(whole.skip(a.len() as int) =~= b);
    assert((c + d).skip(c.len() as int) =~= d);
}

/// The code of a decoder has two letters, and no other decoder has it.
proof fn lemma_codes(left: DecoderPreference, right: DecoderPreference)
    ensures
        left.code_spec().len() == 2,
        left.code_spec() == right.code_spec() ==> left == right,
{
    reveal_strlit("df");
    reveal_strlit("im");
    reveal_strlit("zj");
    reveal_strlit("pc");
    reveal_strlit("zp");
    reveal_strlit("iw");
    reveal_strlit("lw");
    reveal_strlit("gc");
    reveal_strlit("bf");
    reveal_strlit("if");
    reveal_strlit("la");
    let a = left.code_spec();
    let b = right.code_spec();
    if a == b {
        assert(a[0] == b[0] && a[1] == b[1]);
    }
}

/// The decoders asked for are told apart by their codes, one after the other.
proof fn lemma_preferences(left: DecoderPreferences, right: DecoderPreferences)
    ensures
        left.cache_token_spec().len() == 14,
        left.cache_token_spec() == right.cache_token_spec() ==> left == right,
{
    lemma_codes(left.jpeg, right.jpeg);
    lemma_codes(left.png, right.png);
    lemma_codes(left.webp, right.webp);
    lemma_codes(left.gif, right.gif);
    lemma_codes(left.bmp, right.bmp);
    lemma_codes(left.ico, right.ico);
    lemma_codes(left.avif, right.avif);
    lemma_codes(right.jpeg, left.jpeg);
    lemma_codes(right.png, left.png);
    lemma_codes(right.webp, left.webp);
    lemma_codes(right.gif, left.gif);
    lemma_codes(right.bmp, left.bmp);
    lemma_codes(right.ico, left.ico);
    lemma_codes(right.avif, left.avif);
    if left.cache_token_spec() == right.cache_token_spec() {
        let l5 = left.jpeg.code_spec() + left.png.code_spec() + left.webp.code_spec()
            + left.gif.code_spec() + left.bmp.code_spec() + left.ico.code_spec();
        let r5 = right.jpeg.code_spec() + right.png.code_spec() + right.webp.code_spec()
            + right.gif.code_spec() + right.bmp.code_spec() + right.ico.code_spec();
        lemma_split(l5, left.avif.code_spec(), r5, right.avif.code_spec());
        let l4 = left.jpeg.code_spec() + left.png.code_spec() + left.webp.code_spec()
            + left.gif.code_spec() + left.bmp.code_spec();
        let r4 = right.jpeg.code_spec() + right.png.code_spec() + right.webp.code_spec()
            + right.gif.code_spec() + right.bmp.code_spec();
        lemma_split(l4, left.ico.code_spec(), r4, right.ico.code_spec());
        let l3 = left.jpeg.code_spec() + left.png.code_spec() + left.webp.code_spec()
            + left.gif.code_spec();
        let r3 = right.jpeg.code_spec() + right.png.code_spec() + right.webp.code_spec()
            + right.gif.code_spec();
        lemma_split(l3, left.bmp.code_spec(), r3, right.bmp.code_spec());
        let l2 = left.jpeg.code_spec() + left.png.code_spec() + left.webp.code_spec();
        let r2 = right.jpeg.code_spec() + right.png.code_spec() + right.webp.code_spec();
        lemma_split(l2, left.gif.code_spec(), r2, right.gif.code_spec());
        let l1 = left.jpeg.code_spec() + left.png.code_spec();
        let r1 = right.jpeg.code_spec() + right.png.code_spec();
        lemma_split(l1, left.webp.code_spec(), r1, right.webp.code_spec());
        lemma_split(
            left.jpeg.code_spec(),
            left.png.code_spec(),
            right.jpeg.code_spec(),
            right.png.code_spec(),
        );
    }
}

/// The name of the filter for enlarging, or that nothing is enlarged.
spec fn enlarging(filter: CpuScaleFilter, allowed: bool) -> Seq<char> {
    if allowed {
        filter.token_spec()
    } else {
        "no-upscale"@
    }
}

proof fn reveal_filters()
    ensures
        "nearest"@ == seq!['n', 'e', 'a', 'r', 'e', 's', 't'],
        "box"@ == seq!['b', 'o', 'x'],
        "bilinear"@ == seq!['b', 'i', 'l', 'i', 'n', 'e', 'a', 'r'],
        "hamming"@ == seq!['h', 'a', 'm', 'm', 'i', 'n', 'g'],
        "catmull-rom"@ == seq!['c', 'a', 't', 'm', 'u', 'l', 'l', '-', 'r', 'o', 'm'],
        "mitchell"@ == seq!['m', 'i', 't', 'c', 'h', 'e', 'l', 'l'],
        "gaussian"@ == seq!['g', 'a', 'u', 's', 's', 'i', 'a', 'n'],
        "lanczos2"@ == seq!['l', 'a', 'n', 'c', 'z', 'o', 's', '2'],
        "lanczos3"@ == seq!['l', 'a', 'n', 'c', 'z', 'o', 's', '3'],
        "no-upscale"@ == seq!['n', 'o', '-', 'u', 'p', 's', 'c', 'a', 'l', 'e'],
{
    reveal_strlit("nearest");
    reveal_strlit("box");
    reveal_strlit("bilinear");
    reveal_strlit("hamming");
    reveal_strlit("catmull-rom");
    reveal_strlit("mitchell");
    reveal_strlit("gaussian");
    reveal_strlit("lanczos2");
    reveal_strlit("lanczos3");
    reveal_strlit("no-upscale");
    assert("nearest"@ =~= seq!['n', 'e', 'a', 'r', 'e', 's', 't']);
    assert("box"@ =~= seq!['b', 'o', 'x']);
    assert("bilinear"@ =~= seq!['b', 'i', 'l', 'i', 'n', 'e', 'a', 'r']);
    assert("hamming"@ =~= seq!['h', 'a', 'm', 'm', 'i', 'n', 'g']);
    assert("catmull-rom"@ =~= seq!['c', 'a', 't', 'm', 'u', 'l', 'l', '-', 'r', 'o', 'm']);
    assert("mitchell"@ =~= seq!['m', 'i', 't', 'c', 'h', 'e', 'l', 'l']);
    assert("gaussian"@ =~= seq!['g', 'a', 'u', 's', 's', 'i', 'a', 'n']);
    assert("lanczos2"@ =~= seq!['l', 'a', 'n', 'c', 'z', 'o', 's', '2']);
    assert("lanczos3"@ =~= seq!['l', 'a', 'n', 'c', 'z', 'o', 's', '3']);
    assert("no-upscale"@ =~= seq!['n', 'o', '-', 'u', 'p', 's', 'c', 'a', 'l', 'e']);
}

/// A filter's name at the start of a text tells the filter, and with it what follows.
proof fn lemma_filters(
    left: CpuScaleFilter,
    x: Seq<char>,
    right: CpuScaleFilter,
    y: Seq<char>,
)
    requires
        left.token_spec() + x == right.token_spec() + y,
    ensures
        left == right,
        x == y,
{
    reveal_filters();
    let a = left.token_spec() + x;
    let b = right.token_spec() + y;
    assert(a[0] == left.token_spec()[0] && b[0] == right.token_spec()[0]);
    assert(a[1] == left.token_spec()[1] && b[1] == right.token_spec()[1]);
    if left.token_spec().len() >= 8 {
        assert(a[7] == left.token_spec()[7]);
    }
    if right.token_spec().len() >= 8 {
        assert(b[7] == right.token_spec()[7]);
    }
    assert(left == right);
    lemma_split(left.token_spec(), x, right.token_spec(), y);
}

/// `lemma_filters` where the text may say that nothing is enlarged.
proof fn lemma_enlarging(
    left: CpuScaleFilter,
    left_allowed: bool,
    x: Seq<char>,
    right: CpuScaleFilter,
    right_allowed: bool,
    y: Seq<char>,
)
    requires
        enlarging(left, left_allowed) + x == enlarging(right, right_allowed) + y,
    ensures
        left_allowed == right_allowed,
        left_allowed ==> left == right,
        x == y,
{
    reveal_filters();
    let a = enlarging(left, left_allowed) + x;
    let b = enlarging(right, right_allowed) + y;
    assert(a[0] == enlarging(left, left_allowed)[0] && b[0] == enlarging(right, right_allowed)[0]);
    assert(a[1] == enlarging(left, left_allowed)[1] && b[1] == enlarging(right, right_allowed)[1]);
    assert(left_allowed == right_allowed);
    if left_allowed {
        lemma_filters(left, x, right, y);
    } else {
        lemma_split("no-upscale"@, x, "no-upscale"@, y);
    }
}

/// What the end of the options' name says of orientation and colour profile.
spec fn ending(exif: bool, icc: bool) -> Seq<char> {
    (if exif {
        "-exif"@
    } else {
        ""@
    }) + (if icc {
        "-icc"@
    } else {
        ""@
    })
}

proof fn lemma_ending(exif: bool, icc: bool, other_exif: bool, other_icc: bool)
    requires
        ending(exif, icc) == ending(other_exif, other_icc),
    ensures
        exif == other_exif,
        icc == other_icc,
{
    reveal_strlit("-exif");
    reveal_strlit("-icc");
    reveal_strlit("");
    assert("-exif"@.len() == 5 && "-icc"@.len() == 4 && ""@.len() == 0);
    lemma_ending_length(exif, icc);
    lemma_ending_length(other_exif, other_icc);
}

proof fn lemma_ending_length(exif: bool, icc: bool)
    ensures
        ending(exif, icc).len() == (if exif {
            5int
        } else {
            0int
        }) + (if icc {
            4int
        } else {
            0int
        }),
{
    reveal_strlit("-exif");
    reveal_strlit("-icc");
    reveal_strlit("");
    assert("-exif"@.len() == 5 && "-icc"@.len() == 4 && ""@.len() == 0);
}

/// Whether pages decoded with either options are the same: the options agree, except that the
/// filter for enlarging does not matter where nothing is enlarged.
pub open spec fn decode_alike(left: DecodeOptions, right: DecodeOptions) -> bool {
    left == (DecodeOptions {
        cpu_upscale_filter: if left.allow_display_upscale {
            right.cpu_upscale_filter
        } else {
            left.cpu_upscale_filter
        },
        ..right
    })
}

/// Options have the same name in cache keys exactly where they decode pages alike: the filter for
/// enlarging is part of the name only where pages may be enlarged.
pub proof fn tokens_tell_options_apart(left: DecodeOptions, right: DecodeOptions)
    ensures
        left.cache_token_spec() == right.cache_token_spec() <==> decode_alike(left, right),
{
    if decode_alike(left, right) {
        assert(left.cache_token_spec() == right.cache_token_spec());
    } else if left.cache_token_spec() == right.cache_token_spec() {
        lemma_tokens(left, right);
    }
}

/// The part of the options' name after the decoders.
spec fn tail(options: DecodeOptions) -> Seq<char> {
    "-fastprep-"@ + speed_tail(options)
}

spec fn speed_tail(options: DecodeOptions) -> Seq<char> {
    (if options.fast_sampled_scaled_decode {
        "on"@
    } else {
        "off"@
    }) + filter_tail(options)
}

spec fn filter_tail(options: DecodeOptions) -> Seq<char> {
    "-down-"@ + (options.cpu_downscale_filter.token_spec() + ("-"@ + (enlarging(
        options.cpu_upscale_filter,
        options.allow_display_upscale,
    ) + ending(options.apply_exif_orientation, options.apply_embedded_icc))))
}

proof fn lemma_parts(options: DecodeOptions)
    ensures
        options.cache_token_spec() == options.strategy.as_str_spec() + ("-"@ + (
        options.decoder_preferences.cache_token_spec() + tail(options))),
{
    let strategy = options.strategy.as_str_spec();
    let decoders = options.decoder_preferences.cache_token_spec();
    let speed = if options.fast_sampled_scaled_decode {
        "on"@
    } else {
        "off"@
    };
    let down = options.cpu_downscale_filter.token_spec();
    let up = enlarging(options.cpu_upscale_filter, options.allow_display_upscale);
    let exif = if options.apply_exif_orientation {
        "-exif"@
    } else {
        ""@
    };
    let icc = if options.apply_embedded_icc {
        "-icc"@
    } else {
        ""@
    };
    let a = strategy + "-"@;
    let b = a + decoders;
    let c = b + "-fastprep-"@;
    let d = c + speed;
    let e = d + "-down-"@;
    let f = e + down;
    let g = f + "-"@;
    let h = g + up;
    assert(options.cache_token_spec() == h + exif + icc);
    lemma_regroup(h, exif, icc);
    let end = exif + icc;
    lemma_regroup(g, up, end);
    lemma_regroup(f, "-"@, up + end);
    lemma_regroup(e, down, "-"@ + (up + end));
    lemma_regroup(d, "-down-"@, down + ("-"@ + (up + end)));
    lemma_regroup(c, speed, filter_tail(options));
    lemma_regroup(b, "-fastprep-"@, speed_tail(options));
    lemma_regroup(a, decoders, tail(options));
    lemma_regroup(strategy, "-"@, decoders + tail(options));
}

proof fn lemma_regroup(a: Seq<char>, b: Seq<char>, c: Seq<char>)
    ensures
        (a + b) + c == a + (b + c),
{
    assert((a + b) + c =~= a + (b + c));
}

proof fn lemma_tokens(left: DecodeOptions, right: DecodeOptions)
    requires
        left.cache_token_spec() == right.cache_token_spec(),
    ensures
        decode_alike(left, right),
{
    lemma_parts(left);
    lemma_parts(right);
    let l1 = "-"@ + (left.decoder_preferences.cache_token_spec() + tail(left));
    let r1 = "-"@ + (right.decoder_preferences.cache_token_spec() + tail(right));
    lemma_strategies(left.strategy, l1, right.strategy, r1);
    let l2 = left.decoder_preferences.cache_token_spec() + tail(left);
    let r2 = right.decoder_preferences.cache_token_spec() + tail(right);
    lemma_split("-"@, l2, "-"@, r2);
    lemma_preferences(left.decoder_preferences, right.decoder_preferences);
    lemma_preferences(right.decoder_preferences, left.decoder_preferences);
    lemma_split(
        left.decoder_preferences.cache_token_spec(),
        tail(left),
        right.decoder_preferences.cache_token_spec(),
        tail(right),
    );
    lemma_split("-fastprep-"@, speed_tail(left), "-fastprep-"@, speed_tail(right));
    lemma_speed(left, right);
    let l3 = left.cpu_downscale_filter.token_spec() + ("-"@ + (enlarging(
        left.cpu_upscale_filter,
        left.allow_display_upscale,
    ) + ending(left.apply_exif_orientation, left.apply_embedded_icc)));
    let r3 = right.cpu_downscale_filter.token_spec() + ("-"@ + (enlarging(
        right.cpu_upscale_filter,
        right.allow_display_upscale,
    ) + ending(right.apply_exif_orientation, right.apply_embedded_icc)));
    lemma_split("-down-"@, l3, "-down-"@, r3);
    let l4 = enlarging(left.cpu_upscale_filter, left.allow_display_upscale) + ending(
        left.apply_exif_orientation,
        left.apply_embedded_icc,
    );
    let r4 = enlarging(right.cpu_upscale_filter, right.allow_display_upscale) + ending(
        right.apply_exif_orientation,
        right.apply_embedded_icc,
    );
    lemma_filters(left.cpu_downscale_filter, "-"@ + l4, right.cpu_downscale_filter, "-"@ + r4);
    lemma_split("-"@, l4, "-"@, r4);
    lemma_enlarging(
        left.cpu_upscale_filter,
        left.allow_display_upscale,
        ending(left.apply_exif_orientation, left.apply_embedded_icc),
        right.cpu_upscale_filter,
        right.allow_display_upscale,
        ending(right.apply_exif_orientation, right.apply_embedded_icc),
    );
    lemma_ending(
        left.apply_exif_orientation,
        left.apply_embedded_icc,
        right.apply_exif_orientation,
        right.apply_embedded_icc,
    );
}

proof fn lemma_speed(left: DecodeOptions, right: DecodeOptions)
    requires
        speed_tail(left) == speed_tail(right),
    ensures
        left.fast_sampled_scaled_decode == right.fast_sampled_scaled_decode,
        filter_tail(left) == filter_tail(right),
{
    reveal_strlit("on");
    reveal_strlit("off");
    let a = speed_tail(left);
    let b = speed_tail(right);
    assert(a[1] == if left.fast_sampled_scaled_decode {
        'n'
    } else {
        'f'
    });
    assert(b[1] == if right.fast_sampled_scaled_decode {
        'n'
    } else {
        'f'
    });
    if left.fast_sampled_scaled_decode {
        lemma_split("on"@, filter_tail(left), "on"@, filter_tail(right));
    } else {
        lemma_split("off"@, filter_tail(left), "off"@, filter_tail(right));
    }
}

proof fn lemma_strategies(
    left: DecodeStrategy,
    x: Seq<char>,
    right: DecodeStrategy,
    y: Seq<char>,
)
    requires
        left.as_str_spec() + x == right.as_str_spec() + y,
    ensures
        left == right,
        x == y,
{
    reveal_strlit("auto");
    reveal_strlit("image-crate");
    let a = left.as_str_spec() + x;
    let b = right.as_str_spec() + y;
    assert(a[0] == left.as_str_spec()[0] && b[0] == right.as_str_spec()[0]);
    assert(left == right);
    lemma_split(left.as_str_spec(), x, right.as_str_spec(), y);
}

/// Whether a text holds no colon.
spec fn plain(part: Seq<char>) -> bool {
    forall|i: int| 0 <= i < part.len() ==> #[trigger] part[i] != ':'
}

proof fn lemma_plain_join(left: Seq<char>, right: Seq<char>)
    requires
        plain(left),
        plain(right),
    ensures
        plain(left + right),
{
    let whole = left + right;
    assert forall|i: int| 0 <= i < whole.len() implies #[trigger] whole[i] != ':' by {
        if i < left.len() {
            assert(whole[i] == left[i]);
        } else {
            assert(whole[i] == right[i - left.len()]);
        }
    }
}

proof fn lemma_plain_decimal(n: int)
    requires
        0 <= n,
    ensures
        plain(text::decimal(n)),
        text::decimal(n).len() > 0,
    decreases n,
{
    if n >= 10 {
        lemma_plain_decimal(n / 10);
        let before = text::decimal(n / 10);
        let whole = text::decimal(n);
        assert(whole == before.push(text::digit(n % 10)));
        assert forall|i: int| 0 <= i < whole.len() implies #[trigger] whole[i] != ':' by {
            if i < before.len() {
                assert(whole[i] == before[i]);
            }
        }
    }
}

/// Different numbers are written differently.
pub proof fn numbers_are_written_apart(left: int, right: int)
    requires
        0 <= left,
        0 <= right,
        text::decimal(left) == text::decimal(right),
    ensures
        left == right,
    decreases left,
{
    let a = text::decimal(left);
    let b = text::decimal(right);
    assert(a.last() == b.last());
    if left >= 10 {
        lemma_plain_decimal(left / 10);
        assert(a.len() > 1);
        assert(right >= 10);
    }
    if right >= 10 {
        lemma_plain_decimal(right / 10);
        assert(left >= 10);
        assert(a.drop_last() =~= text::decimal(left / 10));
        assert(b.drop_last() =~= text::decimal(right / 10));
        numbers_are_written_apart(left / 10, right / 10);
        assert(text::digit(left % 10) == text::digit(right % 10));
    }
}

proof fn lemma_plain_preferences(preferences: DecoderPreferences)
    ensures
        plain(preferences.cache_token_spec()),
{
    lemma_plain_code(preferences.jpeg);
    lemma_plain_code(preferences.png);
    lemma_plain_code(preferences.webp);
    lemma_plain_code(preferences.gif);
    lemma_plain_code(preferences.bmp);
    lemma_plain_code(preferences.ico);
    lemma_plain_code(preferences.avif);
    let a = preferences.jpeg.code_spec() + preferences.png.code_spec();
    lemma_plain_join(preferences.jpeg.code_spec(), preferences.png.code_spec());
    let b = a + preferences.webp.code_spec();
    lemma_plain_join(a, preferences.webp.code_spec());
    let c = b + preferences.gif.code_spec();
    lemma_plain_join(b, preferences.gif.code_spec());
    let d = c + preferences.bmp.code_spec();
    lemma_plain_join(c, preferences.bmp.code_spec());
    let e = d + preferences.ico.code_spec();
    lemma_plain_join(d, preferences.ico.code_spec());
    lemma_plain_join(e, preferences.avif.code_spec());
}

proof fn lemma_plain_code(preference: DecoderPreference)
    ensures
        plain(preference.code_spec()),
{
    reveal_strlit("df");
    reveal_strlit("im");
    reveal_strlit("zj");
    reveal_strlit("pc");
    reveal_strlit("zp");
    reveal_strlit("iw");
    reveal_strlit("lw");
    reveal_strlit("gc");
    reveal_strlit("bf");
    reveal_strlit("if");
    reveal_strlit("la");
}

proof fn lemma_plain_token(options: DecodeOptions)
    ensures
        plain(options.cache_token_spec()),
{
    reveal_filters();
    reveal_strlit("auto");
    reveal_strlit("image-crate");
    reveal_strlit("-");
    reveal_strlit("-fastprep-");
    reveal_strlit("on");
    reveal_strlit("off");
    reveal_strlit("-down-");
    reveal_strlit("-exif");
    reveal_strlit("-icc");
    reveal_strlit("");
    lemma_parts(options);
    let exif = if options.apply_exif_orientation {
        "-exif"@
    } else {
        ""@
    };
    let icc = if options.apply_embedded_icc {
        "-icc"@
    } else {
        ""@
    };
    lemma_plain_join(exif, icc);
    let end = ending(options.apply_exif_orientation, options.apply_embedded_icc);
    let up = enlarging(options.cpu_upscale_filter, options.allow_display_upscale);
    lemma_plain_join(up, end);
    lemma_plain_join("-"@, up + end);
    let down = options.cpu_downscale_filter.token_spec();
    lemma_plain_join(down, "-"@ + (up + end));
    lemma_plain_join("-down-"@, down + ("-"@ + (up + end)));
    let speed = if options.fast_sampled_scaled_decode {
        "on"@
    } else {
        "off"@
    };
    lemma_plain_join(speed, filter_tail(options));
    lemma_plain_join("-fastprep-"@, speed_tail(options));
    let decoders = options.decoder_preferences.cache_token_spec();
    lemma_plain_preferences(options.decoder_preferences);
    lemma_plain_join(decoders, tail(options));
    lemma_plain_join("-"@, decoders + tail(options));
    lemma_plain_join(options.strategy.as_str_spec(), "-"@ + (decoders + tail(options)));
}

/// A text is split at its last colon in one way only.
proof fn lemma_last_colon(a: Seq<char>, b: Seq<char>, c: Seq<char>, d: Seq<char>)
    requires
        a + ":"@ + b == c + ":"@ + d,
        plain(b),
        plain(d),
    ensures
        a == c,
        b == d,
{
    reveal_strlit(":");
    let left = a + ":"@ + b;
    let right = c + ":"@ + d;
    assert(":"@.len() == 1);
    assert(left.len() == a.len() + 1 + b.len());
    assert(right.len() == c.len() + 1 + d.len());
    assert(left[a.len() as int] == ':');
    assert(right[c.len() as int] == ':');
    if a.len() < c.len() {
        assert(left[c.len() as int] == b[c.len() - a.len() - 1]);
    } else if a.len() > c.len() {
        assert(right[a.len() as int] == d[a.len() - c.len() - 1]);
    }
    lemma_split(a + ":"@, b, c + ":"@, d);
    lemma_split(a, ":"@, c, ":"@);
}

/// Requests have the same key exactly where they are for the same page of the same book, at the
/// same size, and decode it alike.
pub proof fn keys_tell_requests_apart(
    left_book: Seq<char>,
    left_source: u64,
    left_page: PageId,
    left_target: u32,
    left: DecodeOptions,
    right_book: Seq<char>,
    right_source: u64,
    right_page: PageId,
    right_target: u32,
    right: DecodeOptions,
)
    ensures
        cache::page_key(left_book, left_source, left_page, left_target, left) == cache::page_key(
            right_book,
            right_source,
            right_page,
            right_target,
            right,
        ) <==> left_book == right_book && left_source == right_source && left_page == right_page
            && api::clamped_target(left_target) == api::clamped_target(right_target)
            && decode_alike(left, right),
{
    tokens_tell_options_apart(left, right);
    let a = cache::page_key(left_book, left_source, left_page, left_target, left);
    let b = cache::page_key(right_book, right_source, right_page, right_target, right);
    if a == b {
        let lt = api::clamped_target(left_target) as int;
        let rt = api::clamped_target(right_target) as int;
        lemma_plain_token(left);
        lemma_plain_token(right);
        lemma_plain_decimal(lt);
        lemma_plain_decimal(rt);
        lemma_plain_decimal(left_page.0 as int);
        lemma_plain_decimal(right_page.0 as int);
        lemma_plain_decimal(left_source as int);
        lemma_plain_decimal(right_source as int);
        let l2 = left_book + ":"@ + text::decimal(left_source as int);
        let r2 = right_book + ":"@ + text::decimal(right_source as int);
        let l1 = l2 + ":"@ + text::decimal(left_page.0 as int);
        let r1 = r2 + ":"@ + text::decimal(right_page.0 as int);
        let l0 = l1 + ":"@ + text::decimal(lt);
        let r0 = r1 + ":"@ + text::decimal(rt);
        lemma_last_colon(l0, left.cache_token_spec(), r0, right.cache_token_spec());
        lemma_last_colon(l1, text::decimal(lt), r1, text::decimal(rt));
        lemma_last_colon(
            l2,
            text::decimal(left_page.0 as int),
            r2,
            text::decimal(right_page.0 as int),
        );
        lemma_last_colon(
            left_book,
            text::decimal(left_source as int),
            right_book,
            text::decimal(right_source as int),
        );
        numbers_are_written_apart(lt, rt);
        numbers_are_written_apart(left_page.0 as int, right_page.0 as int);
        numbers_are_written_apart(left_source as int, right_source as int);
    }
}

/// A page that some cache holds covers the request that it was made for, and every smaller one for
/// the same page and options, as long as both ask for a display size or both for the original.
pub proof fn larger_pages_cover_smaller_requests(
    page_id: PageId,
    held: u32,
    asked: u32,
    decode: DecodeOptions,
)
    requires
        asked <= held,
        api::clamped_target(asked) > api::MAX_TARGET_LONG_EDGE <==> api::clamped_target(held)
            > api::MAX_TARGET_LONG_EDGE,
    ensures
        (CachedPageKey {
            page_id,
            target_long_edge: api::clamped_target(held),
            decode,
        }).covers_spec(page_id, asked, decode),
{
}

/// Gray pages take a quarter of the memory that their RGBA pixels would.
pub proof fn gray_pages_take_a_quarter(luma: Seq<u8>)
    ensures
        api::expanded_luma(luma).len() == 4 * luma.len(),
{
}

/// Encoded pages have the same key exactly where they are the same page of the same book.
pub proof fn source_keys_tell_pages_apart(
    left_book: Seq<char>,
    left_page: crate::source::PageId,
    right_book: Seq<char>,
    right_page: crate::source::PageId,
)
    ensures
        crate::worker::source_bytes::source_key(left_book, left_page)
            == crate::worker::source_bytes::source_key(right_book, right_page) <==> left_book
            == right_book && left_page == right_page,
{
    lemma_plain_decimal(left_page.0 as int);
    lemma_plain_decimal(right_page.0 as int);
    if crate::worker::source_bytes::source_key(left_book, left_page)
        == crate::worker::source_bytes::source_key(right_book, right_page) {
        lemma_last_colon(
            left_book,
            text::decimal(left_page.0 as int),
            right_book,
            text::decimal(right_page.0 as int),
        );
        numbers_are_written_apart(left_page.0 as int, right_page.0 as int);
    }
}

} // verus!
