//! ASCII spellings of the element names, attribute names and keyword
//! values that SpreadSheetML uses, as byte arrays.

use vstd::prelude::*;

verus! {

/// The ASCII bytes of `rgb`.
pub const KW_RGB: [u8; 3] = [114, 103, 98];

/// The ASCII bytes of `theme`.
pub const KW_THEME: [u8; 5] = [116, 104, 101, 109, 101];

/// The ASCII bytes of `tint`.
pub const KW_TINT: [u8; 4] = [116, 105, 110, 116];

/// The ASCII bytes of `indexed`.
pub const KW_INDEXED: [u8; 7] = [105, 110, 100, 101, 120, 101, 100];

/// The ASCII bytes of `bold`.
pub const KW_BOLD: [u8; 4] = [98, 111, 108, 100];

/// The ASCII bytes of `700`.
pub const KW_700: [u8; 3] = [55, 48, 48];

/// The ASCII bytes of `normal`.
pub const KW_NORMAL: [u8; 6] = [110, 111, 114, 109, 97, 108];

/// The ASCII bytes of `400`.
pub const KW_400: [u8; 3] = [52, 48, 48];

/// The ASCII bytes of `italic`.
pub const KW_ITALIC: [u8; 6] = [105, 116, 97, 108, 105, 99];

/// The ASCII bytes of `oblique`.
pub const KW_OBLIQUE: [u8; 7] = [111, 98, 108, 105, 113, 117, 101];

/// The ASCII bytes of `single`.
pub const KW_SINGLE: [u8; 6] = [115, 105, 110, 103, 108, 101];

/// The ASCII bytes of `double`.
pub const KW_DOUBLE: [u8; 6] = [100, 111, 117, 98, 108, 101];

/// The ASCII bytes of `singleAccounting`.
pub const KW_SINGLE_ACCOUNTING: [u8; 16] = [115, 105, 110, 103, 108, 101, 65, 99, 99, 111, 117, 110, 116, 105, 110, 103];

/// The ASCII bytes of `doubleAccounting`.
pub const KW_DOUBLE_ACCOUNTING: [u8; 16] = [100, 111, 117, 98, 108, 101, 65, 99, 99, 111, 117, 110, 116, 105, 110, 103];

/// The ASCII bytes of `left`.
pub const KW_LEFT: [u8; 4] = [108, 101, 102, 116];

/// The ASCII bytes of `center`.
pub const KW_CENTER: [u8; 6] = [99, 101, 110, 116, 101, 114];

/// The ASCII bytes of `right`.
pub const KW_RIGHT: [u8; 5] = [114, 105, 103, 104, 116];

/// The ASCII bytes of `justify`.
pub const KW_JUSTIFY: [u8; 7] = [106, 117, 115, 116, 105, 102, 121];

/// The ASCII bytes of `distributed`.
pub const KW_DISTRIBUTED: [u8; 11] = [100, 105, 115, 116, 114, 105, 98, 117, 116, 101, 100];

/// The ASCII bytes of `fill`.
pub const KW_FILL: [u8; 4] = [102, 105, 108, 108];

/// The ASCII bytes of `top`.
pub const KW_TOP: [u8; 3] = [116, 111, 112];

/// The ASCII bytes of `bottom`.
pub const KW_BOTTOM: [u8; 6] = [98, 111, 116, 116, 111, 109];

/// The ASCII bytes of `solid`.
pub const KW_SOLID: [u8; 5] = [115, 111, 108, 105, 100];

/// The ASCII bytes of `darkGray`.
pub const KW_DARK_GRAY: [u8; 8] = [100, 97, 114, 107, 71, 114, 97, 121];

/// The ASCII bytes of `mediumGray`.
pub const KW_MEDIUM_GRAY: [u8; 10] = [109, 101, 100, 105, 117, 109, 71, 114, 97, 121];

/// The ASCII bytes of `lightGray`.
pub const KW_LIGHT_GRAY: [u8; 9] = [108, 105, 103, 104, 116, 71, 114, 97, 121];

/// The ASCII bytes of `gray125`.
pub const KW_GRAY125: [u8; 7] = [103, 114, 97, 121, 49, 50, 53];

/// The ASCII bytes of `gray0625`.
pub const KW_GRAY0625: [u8; 8] = [103, 114, 97, 121, 48, 54, 50, 53];

/// The ASCII bytes of `rPh`.
pub const KW_R_PH: [u8; 3] = [114, 80, 104];

/// The ASCII bytes of `darkHorizontal`.
pub const KW_DARK_HORIZONTAL: [u8; 14] = [100, 97, 114, 107, 72, 111, 114, 105, 122, 111, 110, 116, 97, 108];

/// The ASCII bytes of `darkVertical`.
pub const KW_DARK_VERTICAL: [u8; 12] = [100, 97, 114, 107, 86, 101, 114, 116, 105, 99, 97, 108];

/// The ASCII bytes of `darkDown`.
pub const KW_DARK_DOWN: [u8; 8] = [100, 97, 114, 107, 68, 111, 119, 110];

/// The ASCII bytes of `darkUp`.
pub const KW_DARK_UP: [u8; 6] = [100, 97, 114, 107, 85, 112];

/// The ASCII bytes of `darkGrid`.
pub const KW_DARK_GRID: [u8; 8] = [100, 97, 114, 107, 71, 114, 105, 100];

/// The ASCII bytes of `darkTrellis`.
pub const KW_DARK_TRELLIS: [u8; 11] = [100, 97, 114, 107, 84, 114, 101, 108, 108, 105, 115];

/// The ASCII bytes of `lightHorizontal`.
pub const KW_LIGHT_HORIZONTAL: [u8; 15] = [108, 105, 103, 104, 116, 72, 111, 114, 105, 122, 111, 110, 116, 97, 108];

/// The ASCII bytes of `lightVertical`.
pub const KW_LIGHT_VERTICAL: [u8; 13] = [108, 105, 103, 104, 116, 86, 101, 114, 116, 105, 99, 97, 108];

/// The ASCII bytes of `lightDown`.
pub const KW_LIGHT_DOWN: [u8; 9] = [108, 105, 103, 104, 116, 68, 111, 119, 110];

/// The ASCII bytes of `lightUp`.
pub const KW_LIGHT_UP: [u8; 7] = [108, 105, 103, 104, 116, 85, 112];

/// The ASCII bytes of `lightGrid`.
pub const KW_LIGHT_GRID: [u8; 9] = [108, 105, 103, 104, 116, 71, 114, 105, 100];

/// The ASCII bytes of `lightTrellis`.
pub const KW_LIGHT_TRELLIS: [u8; 12] = [108, 105, 103, 104, 116, 84, 114, 101, 108, 108, 105, 115];

/// The ASCII bytes of `thin`.
pub const KW_THIN: [u8; 4] = [116, 104, 105, 110];

/// The ASCII bytes of `medium`.
pub const KW_MEDIUM: [u8; 6] = [109, 101, 100, 105, 117, 109];

/// The ASCII bytes of `thick`.
pub const KW_THICK: [u8; 5] = [116, 104, 105, 99, 107];

/// The ASCII bytes of `hair`.
pub const KW_HAIR: [u8; 4] = [104, 97, 105, 114];

/// The ASCII bytes of `dashed`.
pub const KW_DASHED: [u8; 6] = [100, 97, 115, 104, 101, 100];

/// The ASCII bytes of `dotted`.
pub const KW_DOTTED: [u8; 6] = [100, 111, 116, 116, 101, 100];

/// The ASCII bytes of `mediumDashed`.
pub const KW_MEDIUM_DASHED: [u8; 12] = [109, 101, 100, 105, 117, 109, 68, 97, 115, 104, 101, 100];

/// The ASCII bytes of `dashDot`.
pub const KW_DASH_DOT: [u8; 7] = [100, 97, 115, 104, 68, 111, 116];

/// The ASCII bytes of `dashDotDot`.
pub const KW_DASH_DOT_DOT: [u8; 10] = [100, 97, 115, 104, 68, 111, 116, 68, 111, 116];

/// The ASCII bytes of `slantDashDot`.
pub const KW_SLANT_DASH_DOT: [u8; 12] = [115, 108, 97, 110, 116, 68, 97, 115, 104, 68, 111, 116];

/// The ASCII bytes of `name`.
pub const KW_NAME: [u8; 4] = [110, 97, 109, 101];

/// The ASCII bytes of `val`.
pub const KW_VAL: [u8; 3] = [118, 97, 108];

/// The ASCII bytes of `sz`.
pub const KW_SZ: [u8; 2] = [115, 122];

/// The ASCII bytes of `b`.
pub const KW_B: [u8; 1] = [98];

/// The ASCII bytes of `i`.
pub const KW_I: [u8; 1] = [105];

/// The ASCII bytes of `u`.
pub const KW_U: [u8; 1] = [117];

/// The ASCII bytes of `strike`.
pub const KW_STRIKE: [u8; 6] = [115, 116, 114, 105, 107, 101];

/// The ASCII bytes of `color`.
pub const KW_COLOR: [u8; 5] = [99, 111, 108, 111, 114];

/// The ASCII bytes of `family`.
pub const KW_FAMILY: [u8; 6] = [102, 97, 109, 105, 108, 121];

/// The ASCII bytes of `font`.
pub const KW_FONT: [u8; 4] = [102, 111, 110, 116];

/// The ASCII bytes of `patternFill`.
pub const KW_PATTERN_FILL: [u8; 11] = [112, 97, 116, 116, 101, 114, 110, 70, 105, 108, 108];

/// The ASCII bytes of `patternType`.
pub const KW_PATTERN_TYPE: [u8; 11] = [112, 97, 116, 116, 101, 114, 110, 84, 121, 112, 101];

/// The ASCII bytes of `fgColor`.
pub const KW_FG_COLOR: [u8; 7] = [102, 103, 67, 111, 108, 111, 114];

/// The ASCII bytes of `bgColor`.
pub const KW_BG_COLOR: [u8; 7] = [98, 103, 67, 111, 108, 111, 114];

/// The ASCII bytes of `1`.
pub const KW_ONE: [u8; 1] = [49];

/// The ASCII bytes of `true`.
pub const KW_TRUE: [u8; 4] = [116, 114, 117, 101];

/// The ASCII bytes of `0`.
pub const KW_ZERO: [u8; 1] = [48];

/// The ASCII bytes of `false`.
pub const KW_FALSE: [u8; 5] = [102, 97, 108, 115, 101];

/// The ASCII bytes of `style`.
pub const KW_STYLE: [u8; 5] = [115, 116, 121, 108, 101];

/// The ASCII bytes of `diagonal`.
pub const KW_DIAGONAL: [u8; 8] = [100, 105, 97, 103, 111, 110, 97, 108];

/// The ASCII bytes of `diagonalDown`.
pub const KW_DIAGONAL_DOWN: [u8; 12] = [100, 105, 97, 103, 111, 110, 97, 108, 68, 111, 119, 110];

/// The ASCII bytes of `diagonalUp`.
pub const KW_DIAGONAL_UP: [u8; 10] = [100, 105, 97, 103, 111, 110, 97, 108, 85, 112];

/// The ASCII bytes of `border`.
pub const KW_BORDER: [u8; 6] = [98, 111, 114, 100, 101, 114];

/// The ASCII bytes of `horizontal`.
pub const KW_HORIZONTAL: [u8; 10] = [104, 111, 114, 105, 122, 111, 110, 116, 97, 108];

/// The ASCII bytes of `vertical`.
pub const KW_VERTICAL: [u8; 8] = [118, 101, 114, 116, 105, 99, 97, 108];

/// The ASCII bytes of `wrapText`.
pub const KW_WRAP_TEXT: [u8; 8] = [119, 114, 97, 112, 84, 101, 120, 116];

/// The ASCII bytes of `textRotation`.
pub const KW_TEXT_ROTATION: [u8; 12] = [116, 101, 120, 116, 82, 111, 116, 97, 116, 105, 111, 110];

/// The ASCII bytes of `indent`.
pub const KW_INDENT: [u8; 6] = [105, 110, 100, 101, 110, 116];

/// The ASCII bytes of `shrinkToFit`.
pub const KW_SHRINK_TO_FIT: [u8; 11] = [115, 104, 114, 105, 110, 107, 84, 111, 70, 105, 116];

/// The ASCII bytes of `locked`.
pub const KW_LOCKED: [u8; 6] = [108, 111, 99, 107, 101, 100];

/// The ASCII bytes of `hidden`.
pub const KW_HIDDEN: [u8; 6] = [104, 105, 100, 100, 101, 110];

/// The ASCII bytes of `dimension`.
pub const KW_DIMENSION: [u8; 9] = [100, 105, 109, 101, 110, 115, 105, 111, 110];

/// The ASCII bytes of `ref`.
pub const KW_REF: [u8; 3] = [114, 101, 102];

/// The ASCII bytes of `col`.
pub const KW_COL: [u8; 3] = [99, 111, 108];

/// The ASCII bytes of `min`.
pub const KW_MIN: [u8; 3] = [109, 105, 110];

/// The ASCII bytes of `max`.
pub const KW_MAX: [u8; 3] = [109, 97, 120];

/// The ASCII bytes of `sheetData`.
pub const KW_SHEET_DATA: [u8; 9] = [115, 104, 101, 101, 116, 68, 97, 116, 97];

/// The ASCII bytes of `row`.
pub const KW_ROW: [u8; 3] = [114, 111, 119];

/// The ASCII bytes of `r`.
pub const KW_R: [u8; 1] = [114];

/// The ASCII bytes of `customFormat`.
pub const KW_CUSTOM_FORMAT: [u8; 12] = [99, 117, 115, 116, 111, 109, 70, 111, 114, 109, 97, 116];

/// The ASCII bytes of `s`.
pub const KW_S: [u8; 1] = [115];

/// The ASCII bytes of `c`.
pub const KW_C: [u8; 1] = [99];

/// The ASCII bytes of `t`.
pub const KW_T: [u8; 1] = [116];

/// The ASCII bytes of `is`.
pub const KW_IS: [u8; 2] = [105, 115];

/// The ASCII bytes of `v`.
pub const KW_V: [u8; 1] = [118];

/// The ASCII bytes of `f`.
pub const KW_F: [u8; 1] = [102];

/// The ASCII bytes of `shared`.
pub const KW_SHARED: [u8; 6] = [115, 104, 97, 114, 101, 100];

/// The ASCII bytes of `si`.
pub const KW_SI: [u8; 2] = [115, 105];

/// The ASCII bytes of `str`.
pub const KW_STR: [u8; 3] = [115, 116, 114];

/// The ASCII bytes of `n`.
pub const KW_N: [u8; 1] = [110];

/// The ASCII bytes of `e`.
pub const KW_E: [u8; 1] = [101];

/// The ASCII bytes of `d`.
pub const KW_D: [u8; 1] = [100];

/// The ASCII bytes of `#DIV/0!`.
pub const KW_ERR_DIV0: [u8; 7] = [35, 68, 73, 86, 47, 48, 33];

/// The ASCII bytes of `#N/A`.
pub const KW_ERR_NA: [u8; 4] = [35, 78, 47, 65];

/// The ASCII bytes of `#NAME?`.
pub const KW_ERR_NAME: [u8; 6] = [35, 78, 65, 77, 69, 63];

/// The ASCII bytes of `#NULL!`.
pub const KW_ERR_NULL: [u8; 6] = [35, 78, 85, 76, 76, 33];

/// The ASCII bytes of `#NUM!`.
pub const KW_ERR_NUM: [u8; 5] = [35, 78, 85, 77, 33];

/// The ASCII bytes of `#REF!`.
pub const KW_ERR_REF: [u8; 5] = [35, 82, 69, 70, 33];

/// The ASCII bytes of `#VALUE!`.
pub const KW_ERR_VALUE: [u8; 7] = [35, 86, 65, 76, 85, 69, 33];

/// The ASCII bytes of `#GETTING_DATA`.
pub const KW_ERR_GETTING_DATA: [u8; 13] = [35, 71, 69, 84, 84, 73, 78, 71, 95, 68, 65, 84, 65];

} // verus!
