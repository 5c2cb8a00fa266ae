use vstd::prelude::*;

verus! {

/// The fixed 128-symbol alphabet: the symbol standing at position `d`.
/// Positions outside [0, 128) map to the first symbol and are never used.
/// Opaque: all that the rest of the crate needs of the table is in the
/// lemmas below.
#[verifier::opaque]
pub open spec fn symbol_spec(d: int) -> char {
    if d == 0 { '가' }
    else if d == 1 { '간' }
    else if d == 2 { '강' }
    else if d == 3 { '개' }
    else if d == 4 { '거' }
    else if d == 5 { '고' }
    else if d == 6 { '공' }
    else if d == 7 { '구' }
    else if d == 8 { '금' }
    else if d == 9 { '나' }
    else if d == 10 { '날' }
    else if d == 11 { '남' }
    else if d == 12 { '내' }
    else if d == 13 { '너' }
    else if d == 14 { '노' }
    else if d == 15 { '눈' }
    else if d == 16 { '늘' }
    else if d == 17 { '니' }
    else if d == 18 { '다' }
    else if d == 19 { '달' }
    else if d == 20 { '담' }
    else if d == 21 { '대' }
    else if d == 22 { '더' }
    else if d == 23 { '도' }
    else if d == 24 { '동' }
    else if d == 25 { '두' }
    else if d == 26 { '드' }
    else if d == 27 { '라' }
    else if d == 28 { '람' }
    else if d == 29 { '랑' }
    else if d == 30 { '래' }
    else if d == 31 { '러' }
    else if d == 32 { '로' }
    else if d == 33 { '루' }
    else if d == 34 { '리' }
    else if d == 35 { '림' }
    else if d == 36 { '마' }
    else if d == 37 { '만' }
    else if d == 38 { '말' }
    else if d == 39 { '매' }
    else if d == 40 { '머' }
    else if d == 41 { '모' }
    else if d == 42 { '무' }
    else if d == 43 { '문' }
    else if d == 44 { '미' }
    else if d == 45 { '바' }
    else if d == 46 { '반' }
    else if d == 47 { '방' }
    else if d == 48 { '배' }
    else if d == 49 { '보' }
    else if d == 50 { '봄' }
    else if d == 51 { '부' }
    else if d == 52 { '비' }
    else if d == 53 { '빈' }
    else if d == 54 { '사' }
    else if d == 55 { '산' }
    else if d == 56 { '상' }
    else if d == 57 { '새' }
    else if d == 58 { '서' }
    else if d == 59 { '선' }
    else if d == 60 { '소' }
    else if d == 61 { '송' }
    else if d == 62 { '수' }
    else if d == 63 { '시' }
    else if d == 64 { '아' }
    else if d == 65 { '안' }
    else if d == 66 { '양' }
    else if d == 67 { '어' }
    else if d == 68 { '연' }
    else if d == 69 { '영' }
    else if d == 70 { '오' }
    else if d == 71 { '온' }
    else if d == 72 { '우' }
    else if d == 73 { '이' }
    else if d == 74 { '자' }
    else if d == 75 { '잔' }
    else if d == 76 { '장' }
    else if d == 77 { '재' }
    else if d == 78 { '저' }
    else if d == 79 { '조' }
    else if d == 80 { '주' }
    else if d == 81 { '중' }
    else if d == 82 { '지' }
    else if d == 83 { '차' }
    else if d == 84 { '찬' }
    else if d == 85 { '창' }
    else if d == 86 { '채' }
    else if d == 87 { '천' }
    else if d == 88 { '초' }
    else if d == 89 { '춘' }
    else if d == 90 { '충' }
    else if d == 91 { '치' }
    else if d == 92 { '카' }
    else if d == 93 { '칸' }
    else if d == 94 { '코' }
    else if d == 95 { '쿠' }
    else if d == 96 { '크' }
    else if d == 97 { '키' }
    else if d == 98 { '캐' }
    else if d == 99 { '케' }
    else if d == 100 { '콩' }
    else if d == 101 { '타' }
    else if d == 102 { '탄' }
    else if d == 103 { '태' }
    else if d == 104 { '터' }
    else if d == 105 { '토' }
    else if d == 106 { '통' }
    else if d == 107 { '투' }
    else if d == 108 { '트' }
    else if d == 109 { '티' }
    else if d == 110 { '파' }
    else if d == 111 { '판' }
    else if d == 112 { '패' }
    else if d == 113 { '포' }
    else if d == 114 { '풍' }
    else if d == 115 { '프' }
    else if d == 116 { '피' }
    else if d == 117 { '팔' }
    else if d == 118 { '품' }
    else if d == 119 { '하' }
    else if d == 120 { '한' }
    else if d == 121 { '해' }
    else if d == 122 { '허' }
    else if d == 123 { '호' }
    else if d == 124 { '홍' }
    else if d == 125 { '화' }
    else if d == 126 { '후' }
    else if d == 127 { '히' }
    else { '가' }
}

/// The reverse map derived from the alphabet: the position of symbol `c`,
/// or -1 when `c` is not an alphabet symbol.
#[verifier::opaque]
pub open spec fn index_spec(c: char) -> int {
    if c == '가' { 0 }
    else if c == '간' { 1 }
    else if c == '강' { 2 }
    else if c == '개' { 3 }
    else if c == '거' { 4 }
    else if c == '고' { 5 }
    else if c == '공' { 6 }
    else if c == '구' { 7 }
    else if c == '금' { 8 }
    else if c == '나' { 9 }
    else if c == '날' { 10 }
    else if c == '남' { 11 }
    else if c == '내' { 12 }
    else if c == '너' { 13 }
    else if c == '노' { 14 }
    else if c == '눈' { 15 }
    else if c == '늘' { 16 }
    else if c == '니' { 17 }
    else if c == '다' { 18 }
    else if c == '달' { 19 }
    else if c == '담' { 20 }
    else if c == '대' { 21 }
    else if c == '더' { 22 }
    else if c == '도' { 23 }
    else if c == '동' { 24 }
    else if c == '두' { 25 }
    else if c == '드' { 26 }
    else if c == '라' { 27 }
    else if c == '람' { 28 }
    else if c == '랑' { 29 }
    else if c == '래' { 30 }
    else if c == '러' { 31 }
    else if c == '로' { 32 }
    else if c == '루' { 33 }
    else if c == '리' { 34 }
    else if c == '림' { 35 }
    else if c == '마' { 36 }
    else if c == '만' { 37 }
    else if c == '말' { 38 }
    else if c == '매' { 39 }
    else if c == '머' { 40 }
    else if c == '모' { 41 }
    else if c == '무' { 42 }
    else if c == '문' { 43 }
    else if c == '미' { 44 }
    else if c == '바' { 45 }
    else if c == '반' { 46 }
    else if c == '방' { 47 }
    else if c == '배' { 48 }
    else if c == '보' { 49 }
    else if c == '봄' { 50 }
    else if c == '부' { 51 }
    else if c == '비' { 52 }
    else if c == '빈' { 53 }
    else if c == '사' { 54 }
    else if c == '산' { 55 }
    else if c == '상' { 56 }
    else if c == '새' { 57 }
    else if c == '서' { 58 }
    else if c == '선' { 59 }
    else if c == '소' { 60 }
    else if c == '송' { 61 }
    else if c == '수' { 62 }
    else if c == '시' { 63 }
    else if c == '아' { 64 }
    else if c == '안' { 65 }
    else if c == '양' { 66 }
    else if c == '어' { 67 }
    else if c == '연' { 68 }
    else if c == '영' { 69 }
    else if c == '오' { 70 }
    else if c == '온' { 71 }
    else if c == '우' { 72 }
    else if c == '이' { 73 }
    else if c == '자' { 74 }
    else if c == '잔' { 75 }
    else if c == '장' { 76 }
    else if c == '재' { 77 }
    else if c == '저' { 78 }
    else if c == '조' { 79 }
    else if c == '주' { 80 }
    else if c == '중' { 81 }
    else if c == '지' { 82 }
    else if c == '차' { 83 }
    else if c == '찬' { 84 }
    else if c == '창' { 85 }
    else if c == '채' { 86 }
    else if c == '천' { 87 }
    else if c == '초' { 88 }
    else if c == '춘' { 89 }
    else if c == '충' { 90 }
    else if c == '치' { 91 }
    else if c == '카' { 92 }
    else if c == '칸' { 93 }
    else if c == '코' { 94 }
    else if c == '쿠' { 95 }
    else if c == '크' { 96 }
    else if c == '키' { 97 }
    else if c == '캐' { 98 }
    else if c == '케' { 99 }
    else if c == '콩' { 100 }
    else if c == '타' { 101 }
    else if c == '탄' { 102 }
    else if c == '태' { 103 }
    else if c == '터' { 104 }
    else if c == '토' { 105 }
    else if c == '통' { 106 }
    else if c == '투' { 107 }
    else if c == '트' { 108 }
    else if c == '티' { 109 }
    else if c == '파' { 110 }
    else if c == '판' { 111 }
    else if c == '패' { 112 }
    else if c == '포' { 113 }
    else if c == '풍' { 114 }
    else if c == '프' { 115 }
    else if c == '피' { 116 }
    else if c == '팔' { 117 }
    else if c == '품' { 118 }
    else if c == '하' { 119 }
    else if c == '한' { 120 }
    else if c == '해' { 121 }
    else if c == '허' { 122 }
    else if c == '호' { 123 }
    else if c == '홍' { 124 }
    else if c == '화' { 125 }
    else if c == '후' { 126 }
    else if c == '히' { 127 }
    else { -1 }
}

/// The reverse map never yields a position at or beyond the alphabet's length.
pub proof fn lemma_index_range(c: char)
    ensures
        -1 <= index_spec(c) < 128,
{
    reveal(index_spec);
}

/// Bidirectional consistency, forward: looking an alphabet symbol up in the
/// reverse map yields the position it was taken from.
pub proof fn lemma_symbol_index(d: int)
    requires
        0 <= d < 128,
    ensures
        index_spec(symbol_spec(d)) == d,
{
    reveal(symbol_spec);
    reveal(index_spec);
}

/// Bidirectional consistency, backward: a symbol the reverse map knows stands
/// in the alphabet at the position the reverse map yields.
pub proof fn lemma_index_symbol(c: char)
    requires
        index_spec(c) >= 0,
    ensures
        0 <= index_spec(c) < 128,
        symbol_spec(index_spec(c)) == c,
{
    reveal(symbol_spec);
    reveal(index_spec);
}

/// Executable form of the alphabet table.
pub fn nth_symbol(d: u8) -> (c: char)
    requires
        d < 128,
    ensures
        c == symbol_spec(d as int),
{
    proof {
        reveal(symbol_spec);
    }
    match d {
        0 => '가',
        1 => '간',
        2 => '강',
        3 => '개',
        4 => '거',
        5 => '고',
        6 => '공',
        7 => '구',
        8 => '금',
        9 => '나',
        10 => '날',
        11 => '남',
        12 => '내',
        13 => '너',
        14 => '노',
        15 => '눈',
        16 => '늘',
        17 => '니',
        18 => '다',
        19 => '달',
        20 => '담',
        21 => '대',
        22 => '더',
        23 => '도',
        24 => '동',
        25 => '두',
        26 => '드',
        27 => '라',
        28 => '람',
        29 => '랑',
        30 => '래',
        31 => '러',
        32 => '로',
        33 => '루',
        34 => '리',
        35 => '림',
        36 => '마',
        37 => '만',
        38 => '말',
        39 => '매',
        40 => '머',
        41 => '모',
        42 => '무',
        43 => '문',
        44 => '미',
        45 => '바',
        46 => '반',
        47 => '방',
        48 => '배',
        49 => '보',
        50 => '봄',
        51 => '부',
        52 => '비',
        53 => '빈',
        54 => '사',
        55 => '산',
        56 => '상',
        57 => '새',
        58 => '서',
        59 => '선',
        60 => '소',
        61 => '송',
        62 => '수',
        63 => '시',
        64 => '아',
        65 => '안',
        66 => '양',
        67 => '어',
        68 => '연',
        69 => '영',
        70 => '오',
        71 => '온',
        72 => '우',
        73 => '이',
        74 => '자',
        75 => '잔',
        76 => '장',
        77 => '재',
        78 => '저',
        79 => '조',
        80 => '주',
        81 => '중',
        82 => '지',
        83 => '차',
        84 => '찬',
        85 => '창',
        86 => '채',
        87 => '천',
        88 => '초',
        89 => '춘',
        90 => '충',
        91 => '치',
        92 => '카',
        93 => '칸',
        94 => '코',
        95 => '쿠',
        96 => '크',
        97 => '키',
        98 => '캐',
        99 => '케',
        100 => '콩',
        101 => '타',
        102 => '탄',
        103 => '태',
        104 => '터',
        105 => '토',
        106 => '통',
        107 => '투',
        108 => '트',
        109 => '티',
        110 => '파',
        111 => '판',
        112 => '패',
        113 => '포',
        114 => '풍',
        115 => '프',
        116 => '피',
        117 => '팔',
        118 => '품',
        119 => '하',
        120 => '한',
        121 => '해',
        122 => '허',
        123 => '호',
        124 => '홍',
        125 => '화',
        126 => '후',
        _ => '히',
    }
}

} // verus!
